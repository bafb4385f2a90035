//! What running one lowered statement does, and how its nested blocks and
//! loops proceed, apart from the evaluation of its expressions.

use vstd::prelude::*;
use vstd::hash_map::StringHashMap;

use crate::event_run::{repeat_iterations, MAX_LOOP_ITERATIONS};
use crate::lowered::LoweredLogicStatement;
use crate::text::str_eq;

verus! {

/// A function call that execution handles itself.
#[derive(Clone, Copy, Debug, PartialEq, Eq)]
pub enum BuiltinCall {
    RoomGoto,
    RoomGotoNext,
    GameRestart,
    DrawSetColor,
    DrawSetHalign,
    DrawSetFont,
    DrawText,
    DrawSprite,
    EventInherited,
    SoundPlay,
    SoundLoop,
    SoundStop,
    SoundStopAll,
    KeyboardSetNumlock,
    MoveContactSolid,
    FileBinWriteByte,
    FileDelete,
    FileBinClose,
    ActionWrap,
    InstanceDestroy,
    InstanceCreate,
}

/// The built-in call a name stands for, if any.
pub open spec fn spec_builtin_call(name: Seq<char>) -> Option<BuiltinCall> {
    if name == "room_goto"@ {
        Some(BuiltinCall::RoomGoto)
    } else if name == "room_goto_next"@ {
        Some(BuiltinCall::RoomGotoNext)
    } else if name == "game_restart"@ {
        Some(BuiltinCall::GameRestart)
    } else if name == "draw_set_color"@ {
        Some(BuiltinCall::DrawSetColor)
    } else if name == "draw_set_halign"@ {
        Some(BuiltinCall::DrawSetHalign)
    } else if name == "draw_set_font"@ {
        Some(BuiltinCall::DrawSetFont)
    } else if name == "draw_text"@ {
        Some(BuiltinCall::DrawText)
    } else if name == "draw_sprite"@ {
        Some(BuiltinCall::DrawSprite)
    } else if name == "event_inherited"@ {
        Some(BuiltinCall::EventInherited)
    } else if name == "sound_play"@ {
        Some(BuiltinCall::SoundPlay)
    } else if name == "sound_loop"@ {
        Some(BuiltinCall::SoundLoop)
    } else if name == "sound_stop"@ {
        Some(BuiltinCall::SoundStop)
    } else if name == "sound_stop_all"@ {
        Some(BuiltinCall::SoundStopAll)
    } else if name == "keyboard_set_numlock"@ {
        Some(BuiltinCall::KeyboardSetNumlock)
    } else if name == "move_contact_solid"@ {
        Some(BuiltinCall::MoveContactSolid)
    } else if name == "file_bin_write_byte"@ {
        Some(BuiltinCall::FileBinWriteByte)
    } else if name == "file_delete"@ {
        Some(BuiltinCall::FileDelete)
    } else if name == "file_bin_close"@ {
        Some(BuiltinCall::FileBinClose)
    } else if name == "__iwm_action_wrap"@ {
        Some(BuiltinCall::ActionWrap)
    } else if name == "instance_destroy"@ {
        Some(BuiltinCall::InstanceDestroy)
    } else if name == "instance_create"@ {
        Some(BuiltinCall::InstanceCreate)
    } else {
        None
    }
}

/// The built-in call a name stands for (see [`spec_builtin_call`]).
pub fn builtin_call(name: &str) -> (r: Option<BuiltinCall>)
    ensures
        r == spec_builtin_call(name@),
{
    if str_eq(name, "room_goto") {
        Some(BuiltinCall::RoomGoto)
    } else if str_eq(name, "room_goto_next") {
        Some(BuiltinCall::RoomGotoNext)
    } else if str_eq(name, "game_restart") {
        Some(BuiltinCall::GameRestart)
    } else if str_eq(name, "draw_set_color") {
        Some(BuiltinCall::DrawSetColor)
    } else if str_eq(name, "draw_set_halign") {
        Some(BuiltinCall::DrawSetHalign)
    } else if str_eq(name, "draw_set_font") {
        Some(BuiltinCall::DrawSetFont)
    } else if str_eq(name, "draw_text") {
        Some(BuiltinCall::DrawText)
    } else if str_eq(name, "draw_sprite") {
        Some(BuiltinCall::DrawSprite)
    } else if str_eq(name, "event_inherited") {
        Some(BuiltinCall::EventInherited)
    } else if str_eq(name, "sound_play") {
        Some(BuiltinCall::SoundPlay)
    } else if str_eq(name, "sound_loop") {
        Some(BuiltinCall::SoundLoop)
    } else if str_eq(name, "sound_stop") {
        Some(BuiltinCall::SoundStop)
    } else if str_eq(name, "sound_stop_all") {
        Some(BuiltinCall::SoundStopAll)
    } else if str_eq(name, "keyboard_set_numlock") {
        Some(BuiltinCall::KeyboardSetNumlock)
    } else if str_eq(name, "move_contact_solid") {
        Some(BuiltinCall::MoveContactSolid)
    } else if str_eq(name, "file_bin_write_byte") {
        Some(BuiltinCall::FileBinWriteByte)
    } else if str_eq(name, "file_delete") {
        Some(BuiltinCall::FileDelete)
    } else if str_eq(name, "file_bin_close") {
        Some(BuiltinCall::FileBinClose)
    } else if str_eq(name, "__iwm_action_wrap") {
        Some(BuiltinCall::ActionWrap)
    } else if str_eq(name, "instance_destroy") {
        Some(BuiltinCall::InstanceDestroy)
    } else if str_eq(name, "instance_create") {
        Some(BuiltinCall::InstanceCreate)
    } else {
        None
    }
}

/// What running a statement does.
#[derive(Clone, Copy, Debug, PartialEq, Eq)]
pub enum StatementAction {
    /// Evaluate the value and assign it to the target.
    Assign,
    /// Run the `then` branch (`true`) or the `else` branch, as a block.
    RunBranch { then_branch: bool },
    /// Declare the names in the local scope.
    Declare,
    /// Nothing.
    Skip,
    /// Carry out a built-in call.
    Builtin { call: BuiltinCall },
    /// Run the called script's statements with a fresh local scope.
    CallScript,
    /// Warn that the called function is not implemented.
    UnsupportedFunction,
    /// Run the body for each target of the `with`.
    With,
    /// Run the `for` loop.
    For,
    /// Run the body `times` times, warning where the count was cut.
    Repeat { times: usize, warn: bool },
    /// Warn that the kind of statement is not implemented.
    UnsupportedStatement,
}

/// What running `statement` does. `truthy` is the condition's value read as
/// a truth value (`None` where it could not be evaluated, which counts as
/// false); `repeat_requested` is the `repeat` count read as a whole number
/// (zero where it is not a positive finite number); `scripts` are the
/// package's scripts by name.
pub open spec fn spec_statement_action<N>(
    statement: LoweredLogicStatement<N>,
    truthy: Option<bool>,
    repeat_requested: usize,
    scripts: Set<Seq<char>>,
) -> StatementAction {
    match statement {
        LoweredLogicStatement::Assignment { .. } => StatementAction::Assign,
        LoweredLogicStatement::Conditional { .. } => StatementAction::RunBranch { then_branch: truthy == Some(true) },
        LoweredLogicStatement::VariableDeclaration { .. } => StatementAction::Declare,
        LoweredLogicStatement::Return { .. } => StatementAction::Skip,
        LoweredLogicStatement::FunctionCall { name, .. } => match spec_builtin_call(name@) {
            Some(call) => StatementAction::Builtin { call },
            None => if scripts.contains(name@) {
                StatementAction::CallScript
            } else {
                StatementAction::UnsupportedFunction
            },
        },
        LoweredLogicStatement::With { .. } => StatementAction::With,
        LoweredLogicStatement::For { .. } => StatementAction::For,
        LoweredLogicStatement::Repeat { .. } => StatementAction::Repeat {
            times: if repeat_requested <= MAX_LOOP_ITERATIONS {
                repeat_requested
            } else {
                MAX_LOOP_ITERATIONS
            },
            warn: repeat_requested > MAX_LOOP_ITERATIONS,
        },
        _ => StatementAction::UnsupportedStatement,
    }
}

/// What running `statement` does (see [`spec_statement_action`]).
pub fn statement_action<N, V>(
    statement: &LoweredLogicStatement<N>,
    truthy: Option<bool>,
    repeat_requested: usize,
    scripts: &StringHashMap<V>,
) -> (r: StatementAction)
    ensures
        r == spec_statement_action(*statement, truthy, repeat_requested, scripts@.dom()),
{
    match statement {
        LoweredLogicStatement::Assignment { .. } => StatementAction::Assign,
        LoweredLogicStatement::Conditional { .. } => StatementAction::RunBranch {
            then_branch: match truthy {
                Some(t) => t,
                None => false,
            },
        },
        LoweredLogicStatement::VariableDeclaration { .. } => StatementAction::Declare,
        LoweredLogicStatement::Return { .. } => StatementAction::Skip,
        LoweredLogicStatement::FunctionCall { name, .. } => match builtin_call(name.as_str()) {
            Some(call) => StatementAction::Builtin { call },
            None => if scripts.contains_key(name.as_str()) {
                StatementAction::CallScript
            } else {
                StatementAction::UnsupportedFunction
            },
        },
        LoweredLogicStatement::With { .. } => StatementAction::With,
        LoweredLogicStatement::For { .. } => StatementAction::For,
        LoweredLogicStatement::Repeat { .. } => {
            let (times, warn) = repeat_iterations(repeat_requested);
            StatementAction::Repeat { times, warn }
        },
        _ => StatementAction::UnsupportedStatement,
    }
}

// ----------------------------------------------------------------------------
// Blocks and loops

/// Whether statement `next` of a block of `len` statements runs: it exists,
/// and, for a block that stops on a scene change, none is pending after an
/// earlier statement. A script's body does not stop.
pub open spec fn spec_block_runs(next: usize, len: usize, scene_change_pending: bool, stops_on_scene_change: bool) -> bool {
    next < len && !(next > 0 && stops_on_scene_change && scene_change_pending)
}

/// Whether statement `next` of a block runs (see [`spec_block_runs`]).
pub fn block_runs(next: usize, len: usize, scene_change_pending: bool, stops_on_scene_change: bool) -> (r: bool)
    ensures
        r == spec_block_runs(next, len, scene_change_pending, stops_on_scene_change),
{
    next < len && !(next > 0 && stops_on_scene_change && scene_change_pending)
}

/// Whether iteration `done` (counted from zero) of a `repeat` of `times`
/// runs: it is within the count, and no scene change is pending after an
/// earlier iteration.
pub open spec fn spec_repeat_runs(done: usize, times: usize, scene_change_pending: bool) -> bool {
    done < times && !(done > 0 && scene_change_pending)
}

/// Whether iteration `done` of a `repeat` runs (see [`spec_repeat_runs`]).
pub fn repeat_runs(done: usize, times: usize, scene_change_pending: bool) -> (r: bool)
    ensures
        r == spec_repeat_runs(done, times, scene_change_pending),
{
    done < times && !(done > 0 && scene_change_pending)
}

/// Where a `for` loop is.
#[derive(Clone, Copy, Debug, PartialEq, Eq)]
pub enum ForStage {
    Start,
    AfterInit { iterations: usize },
    AfterCondition { iterations: usize },
    AfterBody { iterations: usize },
    AfterStep { iterations: usize },
    Finished,
}

/// The next piece of work of a `for` loop.
#[derive(Clone, Copy, Debug, PartialEq, Eq)]
pub enum ForAction {
    RunInit,
    EvaluateCondition,
    /// Run the body as a block that stops on a scene change.
    RunBody,
    RunStep,
    /// Warn that the loop hit its limit.
    WarnLimit,
    Done,
}

/// The next stage and action of a `for` loop, given the condition's truth
/// (read after `EvaluateCondition`) and whether a scene change is pending.
pub open spec fn spec_next_for_step(stage: ForStage, truthy: bool, scene_change_pending: bool) -> (ForStage, ForAction) {
    match stage {
        ForStage::Start => (ForStage::AfterInit { iterations: 0 }, ForAction::RunInit),
        ForStage::AfterInit { iterations } => (ForStage::AfterCondition { iterations }, ForAction::EvaluateCondition),
        ForStage::AfterCondition { iterations } => if truthy {
            (ForStage::AfterBody { iterations }, ForAction::RunBody)
        } else {
            (ForStage::Finished, ForAction::Done)
        },
        ForStage::AfterBody { iterations } => if scene_change_pending {
            (ForStage::Finished, ForAction::Done)
        } else {
            (ForStage::AfterStep { iterations }, ForAction::RunStep)
        },
        ForStage::AfterStep { iterations } => if iterations + 1 >= MAX_LOOP_ITERATIONS {
            (ForStage::Finished, ForAction::WarnLimit)
        } else {
            (ForStage::AfterCondition { iterations: (iterations + 1) as usize }, ForAction::EvaluateCondition)
        },
        ForStage::Finished => (ForStage::Finished, ForAction::Done),
    }
}

/// The stage records fewer finished iterations than the limit.
pub open spec fn spec_for_stage_valid(stage: ForStage) -> bool {
    match stage {
        ForStage::AfterInit { iterations } => iterations < MAX_LOOP_ITERATIONS,
        ForStage::AfterCondition { iterations } => iterations < MAX_LOOP_ITERATIONS,
        ForStage::AfterBody { iterations } => iterations < MAX_LOOP_ITERATIONS,
        ForStage::AfterStep { iterations } => iterations < MAX_LOOP_ITERATIONS,
        _ => true,
    }
}

/// The next stage and action of a `for` loop (see [`spec_next_for_step`]).
pub fn next_for_step(stage: ForStage, truthy: bool, scene_change_pending: bool) -> (r: (ForStage, ForAction))
    requires
        spec_for_stage_valid(stage),
    ensures
        r == spec_next_for_step(stage, truthy, scene_change_pending),
        spec_for_stage_valid(r.0),
{
    match stage {
        ForStage::Start => (ForStage::AfterInit { iterations: 0 }, ForAction::RunInit),
        ForStage::AfterInit { iterations } => (ForStage::AfterCondition { iterations }, ForAction::EvaluateCondition),
        ForStage::AfterCondition { iterations } => if truthy {
            (ForStage::AfterBody { iterations }, ForAction::RunBody)
        } else {
            (ForStage::Finished, ForAction::Done)
        },
        ForStage::AfterBody { iterations } => if scene_change_pending {
            (ForStage::Finished, ForAction::Done)
        } else {
            (ForStage::AfterStep { iterations }, ForAction::RunStep)
        },
        ForStage::AfterStep { iterations } => if iterations + 1 >= MAX_LOOP_ITERATIONS {
            (ForStage::Finished, ForAction::WarnLimit)
        } else {
            (ForStage::AfterCondition { iterations: iterations + 1 }, ForAction::EvaluateCondition)
        },
        ForStage::Finished => (ForStage::Finished, ForAction::Done),
    }
}

/// What a `with` does for one of its targets.
#[derive(Clone, Copy, Debug, PartialEq, Eq)]
pub enum WithTargetAction {
    /// Run the body on the running instance itself.
    RunOnSelf,
    /// Run the body on the target, then record it as updated.
    RunOnTarget,
    /// Skip the target: evaluation sees no such instance, or it is dead.
    Skip,
    /// Stop: a scene change is pending after an earlier target.
    Stop,
}

/// What a `with` does for its `k`-th target `target`, run by the instance at
/// `instance_index`; `target_exists` and `alive` describe the target as evaluation
/// sees it with the pending updates applied.
pub open spec fn spec_with_target_action(
    k: usize,
    target: usize,
    instance_index: usize,
    target_exists: bool,
    alive: bool,
    scene_change_pending: bool,
) -> WithTargetAction {
    if k > 0 && scene_change_pending {
        WithTargetAction::Stop
    } else if target == instance_index {
        WithTargetAction::RunOnSelf
    } else if !target_exists || !alive {
        WithTargetAction::Skip
    } else {
        WithTargetAction::RunOnTarget
    }
}

/// What a `with` does for one of its targets (see
/// [`spec_with_target_action`]).
pub fn with_target_action(
    k: usize,
    target: usize,
    instance_index: usize,
    target_exists: bool,
    alive: bool,
    scene_change_pending: bool,
) -> (r: WithTargetAction)
    ensures
        r == spec_with_target_action(k, target, instance_index, target_exists, alive, scene_change_pending),
{
    if k > 0 && scene_change_pending {
        WithTargetAction::Stop
    } else if target == instance_index {
        WithTargetAction::RunOnSelf
    } else if !target_exists || !alive {
        WithTargetAction::Skip
    } else {
        WithTargetAction::RunOnTarget
    }
}

/// Once a scene change is pending no further statement, iteration or `with`
/// target runs: in a block that stops on scene changes, in a `repeat`, in a
/// `for` after its body, and in a `with`.
pub proof fn law_scene_change_stops_statements(
    next: usize,
    len: usize,
    done: usize,
    times: usize,
    iterations: usize,
    k: usize,
    target: usize,
    instance_index: usize,
    target_exists: bool,
    alive: bool,
    truthy: bool,
)
    requires
        next > 0,
        done > 0,
        k > 0,
    ensures
        !spec_block_runs(next, len, true, true),
        !spec_repeat_runs(done, times, true),
        spec_next_for_step(ForStage::AfterBody { iterations }, truthy, true).1 == ForAction::Done,
        spec_with_target_action(k, target, instance_index, target_exists, alive, true) == WithTargetAction::Stop,
{
}

/// A `for` body never runs more than `MAX_LOOP_ITERATIONS` times: from any
/// valid stage, the loop's next stage is valid, and after the step of the
/// last allowed iteration it stops with a warning.
pub proof fn law_for_loops_are_bounded(stage: ForStage, truthy: bool, scene_change_pending: bool)
    requires
        spec_for_stage_valid(stage),
    ensures
        spec_for_stage_valid(spec_next_for_step(stage, truthy, scene_change_pending).0),
        stage == (ForStage::AfterStep { iterations: (MAX_LOOP_ITERATIONS - 1) as usize }) ==> spec_next_for_step(
            stage,
            truthy,
            scene_change_pending,
        ) == (ForStage::Finished, ForAction::WarnLimit),
{
}

/// What running a statement of an instance's creation code does while its
/// room is built.
#[derive(Clone, Copy, Debug, PartialEq, Eq)]
pub enum CreateStatementAction {
    /// Evaluate the value and assign it to the instance or the globals.
    Assign,
    /// Run the `then` branch (`true`) or the `else` branch.
    RunBranch { then_branch: bool },
    /// Mark the instance dead.
    Destroy,
    /// Create the requested instance.
    CreateInstance,
    /// Run the called script's statements.
    RunScript,
    /// Run the body once, whatever the loop or `with` says.
    RunBodyOnce,
    /// Nothing.
    Skip,
}

/// What running `statement` of creation code does; `truthy` is the
/// condition's value read as a truth value (`None` where it could not be
/// evaluated, which counts as false), and `scripts` the package's scripts by
/// name. A call of anything else does nothing.
pub open spec fn spec_create_statement_action<N>(
    statement: LoweredLogicStatement<N>,
    truthy: Option<bool>,
    scripts: Set<Seq<char>>,
) -> CreateStatementAction {
    match statement {
        LoweredLogicStatement::Assignment { .. } => CreateStatementAction::Assign,
        LoweredLogicStatement::Conditional { .. } => CreateStatementAction::RunBranch {
            then_branch: truthy == Some(true),
        },
        LoweredLogicStatement::FunctionCall { name, .. } => if name@ == "instance_destroy"@ {
            CreateStatementAction::Destroy
        } else if name@ == "instance_create"@ {
            CreateStatementAction::CreateInstance
        } else if scripts.contains(name@) {
            CreateStatementAction::RunScript
        } else {
            CreateStatementAction::Skip
        },
        LoweredLogicStatement::With { .. } => CreateStatementAction::RunBodyOnce,
        LoweredLogicStatement::Repeat { .. } => CreateStatementAction::RunBodyOnce,
        LoweredLogicStatement::While { .. } => CreateStatementAction::RunBodyOnce,
        LoweredLogicStatement::For { .. } => CreateStatementAction::RunBodyOnce,
        _ => CreateStatementAction::Skip,
    }
}

/// What running `statement` of creation code does (see
/// [`spec_create_statement_action`]).
pub fn create_statement_action<N, V>(
    statement: &LoweredLogicStatement<N>,
    truthy: Option<bool>,
    scripts: &StringHashMap<V>,
) -> (r: CreateStatementAction)
    ensures
        r == spec_create_statement_action(*statement, truthy, scripts@.dom()),
{
    match statement {
        LoweredLogicStatement::Assignment { .. } => CreateStatementAction::Assign,
        LoweredLogicStatement::Conditional { .. } => CreateStatementAction::RunBranch {
            then_branch: match truthy {
                Some(t) => t,
                None => false,
            },
        },
        LoweredLogicStatement::FunctionCall { name, .. } => if str_eq(name.as_str(), "instance_destroy") {
            CreateStatementAction::Destroy
        } else if str_eq(name.as_str(), "instance_create") {
            CreateStatementAction::CreateInstance
        } else if scripts.contains_key(name.as_str()) {
            CreateStatementAction::RunScript
        } else {
            CreateStatementAction::Skip
        },
        LoweredLogicStatement::With { .. } => CreateStatementAction::RunBodyOnce,
        LoweredLogicStatement::Repeat { .. } => CreateStatementAction::RunBodyOnce,
        LoweredLogicStatement::While { .. } => CreateStatementAction::RunBodyOnce,
        LoweredLogicStatement::For { .. } => CreateStatementAction::RunBodyOnce,
        _ => CreateStatementAction::Skip,
    }
}

/// Each built-in name stands for the call of the same name (`room_goto` for
/// the move to a named room, `room_goto_next` for the next room in order, and
/// so on), and no two names stand for the same call.
pub proof fn law_builtin_calls_are_named_by_their_names(a: Seq<char>, b: Seq<char>)
    ensures
        spec_builtin_call("room_goto"@) == Some(BuiltinCall::RoomGoto),
        spec_builtin_call("room_goto_next"@) == Some(BuiltinCall::RoomGotoNext),
        spec_builtin_call("game_restart"@) == Some(BuiltinCall::GameRestart),
        spec_builtin_call("draw_set_color"@) == Some(BuiltinCall::DrawSetColor),
        spec_builtin_call("draw_set_halign"@) == Some(BuiltinCall::DrawSetHalign),
        spec_builtin_call("draw_set_font"@) == Some(BuiltinCall::DrawSetFont),
        spec_builtin_call("draw_text"@) == Some(BuiltinCall::DrawText),
        spec_builtin_call("draw_sprite"@) == Some(BuiltinCall::DrawSprite),
        spec_builtin_call("event_inherited"@) == Some(BuiltinCall::EventInherited),
        spec_builtin_call("sound_play"@) == Some(BuiltinCall::SoundPlay),
        spec_builtin_call("sound_loop"@) == Some(BuiltinCall::SoundLoop),
        spec_builtin_call("sound_stop"@) == Some(BuiltinCall::SoundStop),
        spec_builtin_call("sound_stop_all"@) == Some(BuiltinCall::SoundStopAll),
        spec_builtin_call("keyboard_set_numlock"@) == Some(BuiltinCall::KeyboardSetNumlock),
        spec_builtin_call("move_contact_solid"@) == Some(BuiltinCall::MoveContactSolid),
        spec_builtin_call("file_bin_write_byte"@) == Some(BuiltinCall::FileBinWriteByte),
        spec_builtin_call("file_delete"@) == Some(BuiltinCall::FileDelete),
        spec_builtin_call("file_bin_close"@) == Some(BuiltinCall::FileBinClose),
        spec_builtin_call("__iwm_action_wrap"@) == Some(BuiltinCall::ActionWrap),
        spec_builtin_call("instance_destroy"@) == Some(BuiltinCall::InstanceDestroy),
        spec_builtin_call("instance_create"@) == Some(BuiltinCall::InstanceCreate),
        spec_builtin_call(a) is Some && spec_builtin_call(a) == spec_builtin_call(b) ==> a == b,
{
    reveal_strlit("room_goto");
    reveal_strlit("room_goto_next");
    reveal_strlit("game_restart");
    reveal_strlit("draw_set_color");
    reveal_strlit("draw_set_halign");
    reveal_strlit("draw_set_font");
    reveal_strlit("draw_text");
    reveal_strlit("draw_sprite");
    reveal_strlit("event_inherited");
    reveal_strlit("sound_play");
    reveal_strlit("sound_loop");
    reveal_strlit("sound_stop");
    reveal_strlit("sound_stop_all");
    reveal_strlit("keyboard_set_numlock");
    reveal_strlit("move_contact_solid");
    reveal_strlit("file_bin_write_byte");
    reveal_strlit("file_delete");
    reveal_strlit("file_bin_close");
    reveal_strlit("__iwm_action_wrap");
    reveal_strlit("instance_destroy");
    reveal_strlit("instance_create");
    assert("room_goto_next"@.len() != "room_goto"@.len());
    assert("game_restart"@.len() != "room_goto"@.len());
    assert("game_restart"@.len() != "room_goto_next"@.len());
    assert("draw_set_color"@.len() != "room_goto"@.len());
    assert("draw_set_color"@[0] != "room_goto_next"@[0]);
    assert("draw_set_color"@.len() != "game_restart"@.len());
    assert("draw_set_halign"@.len() != "room_goto"@.len());
    assert("draw_set_halign"@.len() != "room_goto_next"@.len());
    assert("draw_set_halign"@.len() != "game_restart"@.len());
    assert("draw_set_halign"@.len() != "draw_set_color"@.len());
    assert("draw_set_font"@.len() != "room_goto"@.len());
    assert("draw_set_font"@.len() != "room_goto_next"@.len());
    assert("draw_set_font"@.len() != "game_restart"@.len());
    assert("draw_set_font"@.len() != "draw_set_color"@.len());
    assert("draw_set_font"@.len() != "draw_set_halign"@.len());
    assert("draw_text"@[0] != "room_goto"@[0]);
    assert("draw_text"@.len() != "room_goto_next"@.len());
    assert("draw_text"@.len() != "game_restart"@.len());
    assert("draw_text"@.len() != "draw_set_color"@.len());
    assert("draw_text"@.len() != "draw_set_halign"@.len());
    assert("draw_text"@.len() != "draw_set_font"@.len());
    assert("draw_sprite"@.len() != "room_goto"@.len());
    assert("draw_sprite"@.len() != "room_goto_next"@.len());
    assert("draw_sprite"@.len() != "game_restart"@.len());
    assert("draw_sprite"@.len() != "draw_set_color"@.len());
    assert("draw_sprite"@.len() != "draw_set_halign"@.len());
    assert("draw_sprite"@.len() != "draw_set_font"@.len());
    assert("draw_sprite"@.len() != "draw_text"@.len());
    assert("event_inherited"@.len() != "room_goto"@.len());
    assert("event_inherited"@.len() != "room_goto_next"@.len());
    assert("event_inherited"@.len() != "game_restart"@.len());
    assert("event_inherited"@.len() != "draw_set_color"@.len());
    assert("event_inherited"@[0] != "draw_set_halign"@[0]);
    assert("event_inherited"@.len() != "draw_set_font"@.len());
    assert("event_inherited"@.len() != "draw_text"@.len());
    assert("event_inherited"@.len() != "draw_sprite"@.len());
    assert("sound_play"@.len() != "room_goto"@.len());
    assert("sound_play"@.len() != "room_goto_next"@.len());
    assert("sound_play"@.len() != "game_restart"@.len());
    assert("sound_play"@.len() != "draw_set_color"@.len());
    assert("sound_play"@.len() != "draw_set_halign"@.len());
    assert("sound_play"@.len() != "draw_set_font"@.len());
    assert("sound_play"@.len() != "draw_text"@.len());
    assert("sound_play"@.len() != "draw_sprite"@.len());
    assert("sound_play"@.len() != "event_inherited"@.len());
    assert("sound_loop"@.len() != "room_goto"@.len());
    assert("sound_loop"@.len() != "room_goto_next"@.len());
    assert("sound_loop"@.len() != "game_restart"@.len());
    assert("sound_loop"@.len() != "draw_set_color"@.len());
    assert("sound_loop"@.len() != "draw_set_halign"@.len());
    assert("sound_loop"@.len() != "draw_set_font"@.len());
    assert("sound_loop"@.len() != "draw_text"@.len());
    assert("sound_loop"@.len() != "draw_sprite"@.len());
    assert("sound_loop"@.len() != "event_inherited"@.len());
    assert("sound_loop"@[6] != "sound_play"@[6]);
    assert("sound_stop"@.len() != "room_goto"@.len());
    assert("sound_stop"@.len() != "room_goto_next"@.len());
    assert("sound_stop"@.len() != "game_restart"@.len());
    assert("sound_stop"@.len() != "draw_set_color"@.len());
    assert("sound_stop"@.len() != "draw_set_halign"@.len());
    assert("sound_stop"@.len() != "draw_set_font"@.len());
    assert("sound_stop"@.len() != "draw_text"@.len());
    assert("sound_stop"@.len() != "draw_sprite"@.len());
    assert("sound_stop"@.len() != "event_inherited"@.len());
    assert("sound_stop"@[6] != "sound_play"@[6]);
    assert("sound_stop"@[6] != "sound_loop"@[6]);
    assert("sound_stop_all"@.len() != "room_goto"@.len());
    assert("sound_stop_all"@[0] != "room_goto_next"@[0]);
    assert("sound_stop_all"@.len() != "game_restart"@.len());
    assert("sound_stop_all"@[0] != "draw_set_color"@[0]);
    assert("sound_stop_all"@.len() != "draw_set_halign"@.len());
    assert("sound_stop_all"@.len() != "draw_set_font"@.len());
    assert("sound_stop_all"@.len() != "draw_text"@.len());
    assert("sound_stop_all"@.len() != "draw_sprite"@.len());
    assert("sound_stop_all"@.len() != "event_inherited"@.len());
    assert("sound_stop_all"@.len() != "sound_play"@.len());
    assert("sound_stop_all"@.len() != "sound_loop"@.len());
    assert("sound_stop_all"@.len() != "sound_stop"@.len());
    assert("keyboard_set_numlock"@.len() != "room_goto"@.len());
    assert("keyboard_set_numlock"@.len() != "room_goto_next"@.len());
    assert("keyboard_set_numlock"@.len() != "game_restart"@.len());
    assert("keyboard_set_numlock"@.len() != "draw_set_color"@.len());
    assert("keyboard_set_numlock"@.len() != "draw_set_halign"@.len());
    assert("keyboard_set_numlock"@.len() != "draw_set_font"@.len());
    assert("keyboard_set_numlock"@.len() != "draw_text"@.len());
    assert("keyboard_set_numlock"@.len() != "draw_sprite"@.len());
    assert("keyboard_set_numlock"@.len() != "event_inherited"@.len());
    assert("keyboard_set_numlock"@.len() != "sound_play"@.len());
    assert("keyboard_set_numlock"@.len() != "sound_loop"@.len());
    assert("keyboard_set_numlock"@.len() != "sound_stop"@.len());
    assert("keyboard_set_numlock"@.len() != "sound_stop_all"@.len());
    assert("move_contact_solid"@.len() != "room_goto"@.len());
    assert("move_contact_solid"@.len() != "room_goto_next"@.len());
    assert("move_contact_solid"@.len() != "game_restart"@.len());
    assert("move_contact_solid"@.len() != "draw_set_color"@.len());
    assert("move_contact_solid"@.len() != "draw_set_halign"@.len());
    assert("move_contact_solid"@.len() != "draw_set_font"@.len());
    assert("move_contact_solid"@.len() != "draw_text"@.len());
    assert("move_contact_solid"@.len() != "draw_sprite"@.len());
    assert("move_contact_solid"@.len() != "event_inherited"@.len());
    assert("move_contact_solid"@.len() != "sound_play"@.len());
    assert("move_contact_solid"@.len() != "sound_loop"@.len());
    assert("move_contact_solid"@.len() != "sound_stop"@.len());
    assert("move_contact_solid"@.len() != "sound_stop_all"@.len());
    assert("move_contact_solid"@.len() != "keyboard_set_numlock"@.len());
    assert("file_bin_write_byte"@.len() != "room_goto"@.len());
    assert("file_bin_write_byte"@.len() != "room_goto_next"@.len());
    assert("file_bin_write_byte"@.len() != "game_restart"@.len());
    assert("file_bin_write_byte"@.len() != "draw_set_color"@.len());
    assert("file_bin_write_byte"@.len() != "draw_set_halign"@.len());
    assert("file_bin_write_byte"@.len() != "draw_set_font"@.len());
    assert("file_bin_write_byte"@.len() != "draw_text"@.len());
    assert("file_bin_write_byte"@.len() != "draw_sprite"@.len());
    assert("file_bin_write_byte"@.len() != "event_inherited"@.len());
    assert("file_bin_write_byte"@.len() != "sound_play"@.len());
    assert("file_bin_write_byte"@.len() != "sound_loop"@.len());
    assert("file_bin_write_byte"@.len() != "sound_stop"@.len());
    assert("file_bin_write_byte"@.len() != "sound_stop_all"@.len());
    assert("file_bin_write_byte"@.len() != "keyboard_set_numlock"@.len());
    assert("file_bin_write_byte"@.len() != "move_contact_solid"@.len());
    assert("file_delete"@.len() != "room_goto"@.len());
    assert("file_delete"@.len() != "room_goto_next"@.len());
    assert("file_delete"@.len() != "game_restart"@.len());
    assert("file_delete"@.len() != "draw_set_color"@.len());
    assert("file_delete"@.len() != "draw_set_halign"@.len());
    assert("file_delete"@.len() != "draw_set_font"@.len());
    assert("file_delete"@.len() != "draw_text"@.len());
    assert("file_delete"@[0] != "draw_sprite"@[0]);
    assert("file_delete"@.len() != "event_inherited"@.len());
    assert("file_delete"@.len() != "sound_play"@.len());
    assert("file_delete"@.len() != "sound_loop"@.len());
    assert("file_delete"@.len() != "sound_stop"@.len());
    assert("file_delete"@.len() != "sound_stop_all"@.len());
    assert("file_delete"@.len() != "keyboard_set_numlock"@.len());
    assert("file_delete"@.len() != "move_contact_solid"@.len());
    assert("file_delete"@.len() != "file_bin_write_byte"@.len());
    assert("file_bin_close"@.len() != "room_goto"@.len());
    assert("file_bin_close"@[0] != "room_goto_next"@[0]);
    assert("file_bin_close"@.len() != "game_restart"@.len());
    assert("file_bin_close"@[0] != "draw_set_color"@[0]);
    assert("file_bin_close"@.len() != "draw_set_halign"@.len());
    assert("file_bin_close"@.len() != "draw_set_font"@.len());
    assert("file_bin_close"@.len() != "draw_text"@.len());
    assert("file_bin_close"@.len() != "draw_sprite"@.len());
    assert("file_bin_close"@.len() != "event_inherited"@.len());
    assert("file_bin_close"@.len() != "sound_play"@.len());
    assert("file_bin_close"@.len() != "sound_loop"@.len());
    assert("file_bin_close"@.len() != "sound_stop"@.len());
    assert("file_bin_close"@[0] != "sound_stop_all"@[0]);
    assert("file_bin_close"@.len() != "keyboard_set_numlock"@.len());
    assert("file_bin_close"@.len() != "move_contact_solid"@.len());
    assert("file_bin_close"@.len() != "file_bin_write_byte"@.len());
    assert("file_bin_close"@.len() != "file_delete"@.len());
    assert("__iwm_action_wrap"@.len() != "room_goto"@.len());
    assert("__iwm_action_wrap"@.len() != "room_goto_next"@.len());
    assert("__iwm_action_wrap"@.len() != "game_restart"@.len());
    assert("__iwm_action_wrap"@.len() != "draw_set_color"@.len());
    assert("__iwm_action_wrap"@.len() != "draw_set_halign"@.len());
    assert("__iwm_action_wrap"@.len() != "draw_set_font"@.len());
    assert("__iwm_action_wrap"@.len() != "draw_text"@.len());
    assert("__iwm_action_wrap"@.len() != "draw_sprite"@.len());
    assert("__iwm_action_wrap"@.len() != "event_inherited"@.len());
    assert("__iwm_action_wrap"@.len() != "sound_play"@.len());
    assert("__iwm_action_wrap"@.len() != "sound_loop"@.len());
    assert("__iwm_action_wrap"@.len() != "sound_stop"@.len());
    assert("__iwm_action_wrap"@.len() != "sound_stop_all"@.len());
    assert("__iwm_action_wrap"@.len() != "keyboard_set_numlock"@.len());
    assert("__iwm_action_wrap"@.len() != "move_contact_solid"@.len());
    assert("__iwm_action_wrap"@.len() != "file_bin_write_byte"@.len());
    assert("__iwm_action_wrap"@.len() != "file_delete"@.len());
    assert("__iwm_action_wrap"@.len() != "file_bin_close"@.len());
    assert("instance_destroy"@.len() != "room_goto"@.len());
    assert("instance_destroy"@.len() != "room_goto_next"@.len());
    assert("instance_destroy"@.len() != "game_restart"@.len());
    assert("instance_destroy"@.len() != "draw_set_color"@.len());
    assert("instance_destroy"@.len() != "draw_set_halign"@.len());
    assert("instance_destroy"@.len() != "draw_set_font"@.len());
    assert("instance_destroy"@.len() != "draw_text"@.len());
    assert("instance_destroy"@.len() != "draw_sprite"@.len());
    assert("instance_destroy"@.len() != "event_inherited"@.len());
    assert("instance_destroy"@.len() != "sound_play"@.len());
    assert("instance_destroy"@.len() != "sound_loop"@.len());
    assert("instance_destroy"@.len() != "sound_stop"@.len());
    assert("instance_destroy"@.len() != "sound_stop_all"@.len());
    assert("instance_destroy"@.len() != "keyboard_set_numlock"@.len());
    assert("instance_destroy"@.len() != "move_contact_solid"@.len());
    assert("instance_destroy"@.len() != "file_bin_write_byte"@.len());
    assert("instance_destroy"@.len() != "file_delete"@.len());
    assert("instance_destroy"@.len() != "file_bin_close"@.len());
    assert("instance_destroy"@.len() != "__iwm_action_wrap"@.len());
    assert("instance_create"@.len() != "room_goto"@.len());
    assert("instance_create"@.len() != "room_goto_next"@.len());
    assert("instance_create"@.len() != "game_restart"@.len());
    assert("instance_create"@.len() != "draw_set_color"@.len());
    assert("instance_create"@[0] != "draw_set_halign"@[0]);
    assert("instance_create"@.len() != "draw_set_font"@.len());
    assert("instance_create"@.len() != "draw_text"@.len());
    assert("instance_create"@.len() != "draw_sprite"@.len());
    assert("instance_create"@[0] != "event_inherited"@[0]);
    assert("instance_create"@.len() != "sound_play"@.len());
    assert("instance_create"@.len() != "sound_loop"@.len());
    assert("instance_create"@.len() != "sound_stop"@.len());
    assert("instance_create"@.len() != "sound_stop_all"@.len());
    assert("instance_create"@.len() != "keyboard_set_numlock"@.len());
    assert("instance_create"@.len() != "move_contact_solid"@.len());
    assert("instance_create"@.len() != "file_bin_write_byte"@.len());
    assert("instance_create"@.len() != "file_delete"@.len());
    assert("instance_create"@.len() != "file_bin_close"@.len());
    assert("instance_create"@.len() != "__iwm_action_wrap"@.len());
    assert("instance_create"@.len() != "instance_destroy"@.len());
}

/// A conditional runs its `then` branch exactly when its condition is truthy,
/// and its `else` branch otherwise (an unevaluable condition included); a
/// `repeat` runs its body as many times as asked up to the limit, warning
/// exactly when asked for more; a call of a built-in runs that built-in,
/// whatever scripts exist; any other call runs a script exactly when one of
/// that name exists.
pub proof fn law_statements_do_what_they_say<N>(
    statement: LoweredLogicStatement<N>,
    truthy: Option<bool>,
    repeat_requested: usize,
    scripts: Set<Seq<char>>,
)
    ensures
        ({
            let a = spec_statement_action(statement, truthy, repeat_requested, scripts);
            &&& statement is Conditional ==> (a == StatementAction::RunBranch { then_branch: true } <==> truthy
                == Some(true)) && (a == StatementAction::RunBranch { then_branch: false } <==> truthy != Some(true))
            &&& statement is Repeat ==> (a matches StatementAction::Repeat { times, warn } && times
                <= MAX_LOOP_ITERATIONS && (repeat_requested <= MAX_LOOP_ITERATIONS ==> times == repeat_requested
                && !warn) && (repeat_requested > MAX_LOOP_ITERATIONS ==> times == MAX_LOOP_ITERATIONS && warn))
            &&& (statement matches LoweredLogicStatement::FunctionCall { name, .. } ==> {
                &&& spec_builtin_call(name@) matches Some(call) ==> a == (StatementAction::Builtin { call })
                &&& spec_builtin_call(name@) is None ==> (a == StatementAction::CallScript <==> scripts.contains(
                    name@,
                )) && (a == StatementAction::UnsupportedFunction <==> !scripts.contains(name@))
            })
            &&& statement is Assignment <==> a == StatementAction::Assign
            &&& statement is VariableDeclaration <==> a == StatementAction::Declare
            &&& statement is Return <==> a == StatementAction::Skip
            &&& (statement is While || statement is Raw) <==> a == StatementAction::UnsupportedStatement
        }),
{
}

/// A block runs its statements in order from the first: the first always
/// runs where there is one, every statement runs where no scene change is
/// pending, and none past the end runs; a script's body never stops early.
pub proof fn law_blocks_run_every_statement(next: usize, len: usize, scene_change_pending: bool, stops: bool)
    ensures
        (next == 0 && len > 0) ==> spec_block_runs(next, len, scene_change_pending, stops),
        (next < len && !scene_change_pending) ==> spec_block_runs(next, len, scene_change_pending, stops),
        next >= len ==> !spec_block_runs(next, len, scene_change_pending, stops),
        (next < len && !stops) ==> spec_block_runs(next, len, scene_change_pending, stops),
        (next == 0 && len > 0) ==> spec_repeat_runs(next, len, scene_change_pending),
        (next < len && !scene_change_pending) ==> spec_repeat_runs(next, len, scene_change_pending),
        next >= len ==> !spec_repeat_runs(next, len, scene_change_pending),
{
}

/// A `with` runs its body on the running instance itself when it is among
/// the targets, and on another target only where evaluation sees it alive;
/// after the first target a pending scene change stops it.
pub proof fn law_with_runs_on_live_targets(
    k: usize,
    target: usize,
    instance_index: usize,
    target_exists: bool,
    alive: bool,
    scene_change_pending: bool,
)
    ensures
        ({
            let a = spec_with_target_action(k, target, instance_index, target_exists, alive, scene_change_pending);
            &&& a == WithTargetAction::RunOnTarget ==> target != instance_index && target_exists && alive
            &&& a == WithTargetAction::RunOnSelf ==> target == instance_index
            &&& (k == 0 || !scene_change_pending) ==> (a == WithTargetAction::RunOnSelf <==> target == instance_index)
            &&& (k == 0 || !scene_change_pending) && target != instance_index ==> (a == WithTargetAction::RunOnTarget
                <==> target_exists && alive)
            &&& a == WithTargetAction::Stop <==> k > 0 && scene_change_pending
        }),
{
}

/// In creation code a conditional runs its `then` branch exactly when its
/// condition is truthy, `instance_destroy` and `instance_create` do what
/// they say whatever scripts exist, and another call runs a script exactly
/// where one of that name exists.
pub proof fn law_creation_code_does_what_it_says<N>(
    statement: LoweredLogicStatement<N>,
    truthy: Option<bool>,
    scripts: Set<Seq<char>>,
)
    ensures
        ({
            let a = spec_create_statement_action(statement, truthy, scripts);
            &&& statement is Conditional ==> (a == CreateStatementAction::RunBranch { then_branch: true } <==> truthy
                == Some(true))
            &&& (statement matches LoweredLogicStatement::FunctionCall { name, .. } ==> {
                &&& name@ == "instance_destroy"@ ==> a == CreateStatementAction::Destroy
                &&& name@ == "instance_create"@ ==> a == CreateStatementAction::CreateInstance
                &&& name@ != "instance_destroy"@ && name@ != "instance_create"@ ==> (a
                    == CreateStatementAction::RunScript <==> scripts.contains(name@))
            })
            &&& statement is Assignment <==> a == CreateStatementAction::Assign
        }),
{
    reveal_strlit("instance_destroy");
    reveal_strlit("instance_create");
    assert("instance_destroy"@.len() != "instance_create"@.len());
}

} // verus!
