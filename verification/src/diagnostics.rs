//! What diagnostics say about running code: where an event ran, which kind of
//! statement it was, which functions evaluation supports, and how long a phase
//! took.

use vstd::prelude::*;

use vstd::hash_map::StringHashMap;

use crate::lowered::{LoweredLogicExpr, LoweredLogicStatement};
use crate::model::RuntimeInstance;
use crate::text::{push_decimal, push_str, spec_decimal, str_eq};

verus! {

/// Where running code came from: the room, the tick, the code block, and the
/// object and event it belongs to.
#[derive(Clone, Debug)]
pub struct RuntimeExecutionTrace {
    pub room_id: usize,
    pub tick: u64,
    pub block_id: String,
    pub object_name: String,
    pub event_tag: String,
}

/// `room=R tick=T block_id=B object=O event_tag=E runtime_id=I`, the trace's
/// fields and the instance's runtime id.
pub open spec fn spec_trace_message<N>(trace: RuntimeExecutionTrace, instance: RuntimeInstance<N>) -> Seq<char> {
    "room="@ + spec_decimal(trace.room_id as nat) + " tick="@ + spec_decimal(trace.tick as nat) + " block_id="@
        + trace.block_id@ + " object="@ + trace.object_name@ + " event_tag="@ + trace.event_tag@
        + " runtime_id="@ + spec_decimal(instance.runtime_id as nat)
}

/// The text that places a diagnostic (see [`spec_trace_message`]).
pub fn trace_message<N>(trace: &RuntimeExecutionTrace, instance: &RuntimeInstance<N>) -> (r: String)
    ensures
        r@ == spec_trace_message(*trace, *instance),
{
    let mut out = String::new();
    push_str(&mut out, "room=");
    push_decimal(&mut out, trace.room_id as u64);
    push_str(&mut out, " tick=");
    push_decimal(&mut out, trace.tick);
    push_str(&mut out, " block_id=");
    push_str(&mut out, trace.block_id.as_str());
    push_str(&mut out, " object=");
    push_str(&mut out, trace.object_name.as_str());
    push_str(&mut out, " event_tag=");
    push_str(&mut out, trace.event_tag.as_str());
    push_str(&mut out, " runtime_id=");
    push_decimal(&mut out, instance.runtime_id as u64);
    assert(out@ =~= spec_trace_message(*trace, *instance));
    out
}

/// The name diagnostics give a statement's kind.
pub open spec fn spec_statement_kind<N>(statement: LoweredLogicStatement<N>) -> Seq<char> {
    match statement {
        LoweredLogicStatement::Assignment { .. } => "assignment"@,
        LoweredLogicStatement::VariableDeclaration { .. } => "variable-declaration"@,
        LoweredLogicStatement::Return { .. } => "return"@,
        LoweredLogicStatement::FunctionCall { .. } => "function-call"@,
        LoweredLogicStatement::Conditional { .. } => "conditional"@,
        LoweredLogicStatement::With { .. } => "with"@,
        LoweredLogicStatement::Repeat { .. } => "repeat"@,
        LoweredLogicStatement::While { .. } => "while"@,
        LoweredLogicStatement::For { .. } => "for"@,
        LoweredLogicStatement::Raw { .. } => "raw"@,
    }
}

/// The name diagnostics give the kind of `statement`.
pub fn statement_kind<N>(statement: &LoweredLogicStatement<N>) -> (r: &'static str)
    ensures
        r@ == spec_statement_kind(*statement),
{
    match statement {
        LoweredLogicStatement::Assignment { .. } => "assignment",
        LoweredLogicStatement::VariableDeclaration { .. } => "variable-declaration",
        LoweredLogicStatement::Return { .. } => "return",
        LoweredLogicStatement::FunctionCall { .. } => "function-call",
        LoweredLogicStatement::Conditional { .. } => "conditional",
        LoweredLogicStatement::With { .. } => "with",
        LoweredLogicStatement::Repeat { .. } => "repeat",
        LoweredLogicStatement::While { .. } => "while",
        LoweredLogicStatement::For { .. } => "for",
        LoweredLogicStatement::Raw { .. } => "raw",
    }
}

/// Whether expression evaluation implements the function called `name`.
pub open spec fn spec_is_supported_eval_function(name: Seq<char>) -> bool {
    ||| name == "room_goto"@
    ||| name == "ord"@
    ||| name == "abs"@
    ||| name == "floor"@
    ||| name == "random"@
    ||| name == "random_range"@
    ||| name == "choose"@
    ||| name == "string"@
    ||| name == "file_bin_open"@
    ||| name == "file_bin_read_byte"@
    ||| name == "file_bin_write_byte"@
    ||| name == "file_bin_close"@
    ||| name == "file_exists"@
    ||| name == "instance_exists"@
    ||| name == "distance_to_object"@
    ||| name == "collision_line"@
    ||| name == "keyboard_check"@
    ||| name == "keyboard_check_direct"@
    ||| name == "keyboard_check_pressed"@
    ||| name == "keyboard_check_released"@
    ||| name == "keyboard_get_numlock"@
    ||| name == "place_meeting"@
    ||| name == "place_free"@
    ||| name == "sound_isplaying"@
}

/// Whether expression evaluation implements the function called `name`.
pub fn is_supported_eval_function(name: &str) -> (r: bool)
    ensures
        r == spec_is_supported_eval_function(name@),
{
    str_eq(name, "room_goto") || str_eq(name, "ord") || str_eq(name, "abs") || str_eq(name, "floor")
        || str_eq(name, "random") || str_eq(name, "random_range") || str_eq(name, "choose")
        || str_eq(name, "string") || str_eq(name, "file_bin_open") || str_eq(name, "file_bin_read_byte")
        || str_eq(name, "file_bin_write_byte") || str_eq(name, "file_bin_close") || str_eq(name, "file_exists")
        || str_eq(name, "instance_exists") || str_eq(name, "distance_to_object") || str_eq(name, "collision_line")
        || str_eq(name, "keyboard_check") || str_eq(name, "keyboard_check_direct")
        || str_eq(name, "keyboard_check_pressed") || str_eq(name, "keyboard_check_released")
        || str_eq(name, "keyboard_get_numlock") || str_eq(name, "place_meeting") || str_eq(name, "place_free")
        || str_eq(name, "sound_isplaying")
}

/// The nanoseconds from `start` to `end`: 0 where `end` is not later, at most
/// `u64::MAX`.
pub open spec fn spec_nanos_between(start: u128, end: u128) -> u64 {
    if end <= start {
        0
    } else if end - start > u64::MAX {
        u64::MAX
    } else {
        (end - start) as u64
    }
}

/// The nanoseconds from `start` to `end` (see [`spec_nanos_between`]).
pub fn nanos_between(start: u128, end: u128) -> (r: u64)
    ensures
        r == spec_nanos_between(start, end),
{
    let elapsed: u128 = if end > start { end - start } else { 0 };
    if elapsed > u64::MAX as u128 {
        u64::MAX
    } else {
        elapsed as u64
    }
}

/// The nanoseconds since `start`, given the host's clock reading `now`: 0
/// without a start or without a reading.
pub fn elapsed_since(start: Option<u128>, now: Option<u128>) -> (r: u64)
    ensures
        r == match (start, now) {
            (Some(s), Some(e)) => spec_nanos_between(s, e),
            _ => 0,
        },
{
    let start = match start {
        Some(s) => s,
        None => return 0,
    };
    let end = match now {
        Some(e) => e,
        None => return 0,
    };
    nanos_between(start, end)
}

/// Ends a timed phase at the host's clock reading `now` and starts the next:
/// returns the nanoseconds of the phase that started at `phase_start`, and
/// moves the start to `now`. Without a start nothing is timed; without a
/// reading the timing stops.
pub fn mark_phase_elapsed(phase_start: &mut Option<u128>, now: Option<u128>) -> (r: u64)
    ensures
        match (*old(phase_start), now) {
            (Some(s), Some(e)) => r == spec_nanos_between(s, e) && *final(phase_start) == Some(e),
            (Some(_), None) => r == 0 && *final(phase_start) is None,
            (None, _) => r == 0 && *final(phase_start) is None,
        },
{
    let start = match *phase_start {
        Some(s) => s,
        None => return 0,
    };
    let end = match now {
        Some(e) => e,
        None => {
            *phase_start = None;
            return 0;
        },
    };
    *phase_start = Some(end);
    nanos_between(start, end)
}

// ----------------------------------------------------------------------------
// The diagnostic log

/// How serious a diagnostic is.
#[derive(Clone, Copy, Debug, PartialEq, Eq)]
pub enum RuntimeDiagnosticLevel {
    Info,
    Warning,
}

/// A diagnostic: its level, a stable code, and a message.
#[derive(Clone, Debug)]
pub struct RuntimeDiagnostic {
    pub level: RuntimeDiagnosticLevel,
    pub code: String,
    pub message: String,
}

/// The number of diagnostics the runtime keeps.
pub const MAX_DIAGNOSTICS: usize = 64;

/// The log after recording `diagnostic`: the oldest entry dropped where the log
/// is full, then `diagnostic` appended.
pub open spec fn spec_logged(log: Seq<RuntimeDiagnostic>, diagnostic: RuntimeDiagnostic) -> Seq<RuntimeDiagnostic> {
    (if log.len() >= MAX_DIAGNOSTICS { log.drop_first() } else { log }).push(diagnostic)
}

/// `a` and `b` hold the same level, code and message.
pub open spec fn spec_same_diagnostic(a: RuntimeDiagnostic, b: RuntimeDiagnostic) -> bool {
    a.level == b.level && a.code@ == b.code@ && a.message@ == b.message@
}

/// `a` and `b` are logs of the same length holding the same diagnostics in
/// the same order.
pub open spec fn spec_same_log(a: Seq<RuntimeDiagnostic>, b: Seq<RuntimeDiagnostic>) -> bool {
    &&& a.len() == b.len()
    &&& forall|i: int| 0 <= i < a.len() ==> spec_same_diagnostic(#[trigger] a[i], b[i])
}

/// The log after recording each of `ds` in turn.
pub open spec fn spec_logged_all(log: Seq<RuntimeDiagnostic>, ds: Seq<RuntimeDiagnostic>) -> Seq<RuntimeDiagnostic>
    decreases ds.len(),
{
    if ds.len() == 0 {
        log
    } else {
        spec_logged(spec_logged_all(log, ds.drop_last()), ds.last())
    }
}

impl RuntimeDiagnostic {
    /// A copy of this diagnostic.
    pub fn duplicate(&self) -> (r: RuntimeDiagnostic)
        ensures
            spec_same_diagnostic(r, *self),
    {
        RuntimeDiagnostic { level: self.level, code: self.code.clone(), message: self.message.clone() }
    }
}

/// Records a diagnostic in the runtime's log, which keeps the latest
/// `MAX_DIAGNOSTICS`, and returns a copy for the host to record.
pub fn record_host_diagnostic(
    diagnostics: &mut Vec<RuntimeDiagnostic>,
    level: RuntimeDiagnosticLevel,
    code: String,
    message: String,
) -> (r: RuntimeDiagnostic)
    ensures
        r.level == level && r.code@ == code@ && r.message@ == message@,
        spec_same_log(final(diagnostics)@, spec_logged(old(diagnostics)@, r)),
{
    let diagnostic = RuntimeDiagnostic { level, code, message };
    let copy = diagnostic.duplicate();
    let ghost start = diagnostics@;
    if diagnostics.len() >= MAX_DIAGNOSTICS {
        let _ = diagnostics.remove(0);
        assert(diagnostics@ =~= start.drop_first());
    }
    diagnostics.push(diagnostic);
    assert forall|i: int| 0 <= i < diagnostics@.len() implies spec_same_diagnostic(
        #[trigger] diagnostics@[i],
        spec_logged(start, copy)[i],
    ) by {
        if i == diagnostics@.len() - 1 {
            assert(spec_logged(start, copy)[i] == copy);
        } else {
            assert(diagnostics@[i] == spec_logged(start, copy)[i]);
        }
    }
    copy
}

/// The message of an execution trace diagnostic.
pub open spec fn spec_execution_trace_message<N>(
    room_id: usize,
    tick: u64,
    instance: RuntimeInstance<N>,
    block_id: Seq<char>,
    event_tag: Seq<char>,
) -> Seq<char> {
    "room="@ + spec_decimal(room_id as nat) + " tick="@ + spec_decimal(tick as nat) + " block_id="@ + block_id
        + " object="@ + instance.object_name@ + " event_tag="@ + event_tag + " runtime_id="@ + spec_decimal(
        instance.runtime_id as nat,
    )
}

/// Records that a code block ran, except for collision events, and returns
/// the diagnostic for the host to record; nothing is recorded for a collision
/// event.
pub fn record_execution_trace<N>(
    diagnostics: &mut Vec<RuntimeDiagnostic>,
    room_id: usize,
    tick: u64,
    instance: &RuntimeInstance<N>,
    block_id: &str,
    event_tag: &str,
) -> (r: Option<RuntimeDiagnostic>)
    ensures
        event_tag@ == "collision"@ ==> r is None && final(diagnostics)@ == old(diagnostics)@,
        event_tag@ != "collision"@ ==> (r matches Some(d) && {
            &&& d.level == RuntimeDiagnosticLevel::Info
            &&& d.code@ == "runtime-exec-block-trace"@
            &&& d.message@ == spec_execution_trace_message(room_id, tick, *instance, block_id@, event_tag@)
            &&& spec_same_log(final(diagnostics)@, spec_logged(old(diagnostics)@, d))
        }),
{
    if str_eq(event_tag, "collision") {
        return None;
    }
    let mut message = String::new();
    push_str(&mut message, "room=");
    push_decimal(&mut message, room_id as u64);
    push_str(&mut message, " tick=");
    push_decimal(&mut message, tick);
    push_str(&mut message, " block_id=");
    push_str(&mut message, block_id);
    push_str(&mut message, " object=");
    push_str(&mut message, instance.object_name.as_str());
    push_str(&mut message, " event_tag=");
    push_str(&mut message, event_tag);
    push_str(&mut message, " runtime_id=");
    push_decimal(&mut message, instance.runtime_id as u64);
    assert(message@ =~= spec_execution_trace_message(room_id, tick, *instance, block_id@, event_tag@));
    Some(record_host_diagnostic(diagnostics, RuntimeDiagnosticLevel::Info, "runtime-exec-block-trace".to_owned(), message))
}

/// Recording the same diagnostic into logs that hold the same diagnostics
/// gives logs that hold the same diagnostics.
proof fn lemma_same_log_logged(a: Seq<RuntimeDiagnostic>, b: Seq<RuntimeDiagnostic>, d: RuntimeDiagnostic)
    requires
        spec_same_log(a, b),
    ensures
        spec_same_log(spec_logged(a, d), spec_logged(b, d)),
{
    let a1 = if a.len() >= MAX_DIAGNOSTICS { a.drop_first() } else { a };
    let b1 = if b.len() >= MAX_DIAGNOSTICS { b.drop_first() } else { b };
    assert forall|i: int| 0 <= i < a1.len() implies spec_same_diagnostic(#[trigger] a1[i], b1[i]) by {
        if a.len() >= MAX_DIAGNOSTICS {
            assert(a1[i] == a[i + 1] && b1[i] == b[i + 1]);
        }
    }
    let la = spec_logged(a, d);
    let lb = spec_logged(b, d);
    assert forall|i: int| 0 <= i < la.len() implies spec_same_diagnostic(#[trigger] la[i], lb[i]) by {
        if i < a1.len() {
            assert(la[i] == a1[i] && lb[i] == b1[i]);
        }
    }
}

proof fn lemma_same_log_trans(a: Seq<RuntimeDiagnostic>, b: Seq<RuntimeDiagnostic>, c: Seq<RuntimeDiagnostic>)
    requires
        spec_same_log(a, b),
        spec_same_log(b, c),
    ensures
        spec_same_log(a, c),
{
    assert forall|i: int| 0 <= i < a.len() implies spec_same_diagnostic(#[trigger] a[i], c[i]) by {
        assert(spec_same_diagnostic(a[i], b[i]) && spec_same_diagnostic(b[i], c[i]));
    }
}

/// Recording `x` then `y` is recording `x + y`.
proof fn lemma_logged_all_append(log: Seq<RuntimeDiagnostic>, x: Seq<RuntimeDiagnostic>, y: Seq<RuntimeDiagnostic>)
    ensures
        spec_logged_all(log, x + y) == spec_logged_all(spec_logged_all(log, x), y),
    decreases y.len(),
{
    if y.len() == 0 {
        assert(x + y =~= x);
    } else {
        assert((x + y).drop_last() =~= x + y.drop_last());
        lemma_logged_all_append(log, x, y.drop_last());
    }
}

/// The message of a diagnostic about a call of an unimplemented function.
pub open spec fn spec_unsupported_function_message<N>(
    trace: RuntimeExecutionTrace,
    instance: RuntimeInstance<N>,
    name: Seq<char>,
) -> Seq<char> {
    spec_trace_message(trace, instance) + " function="@ + name
}

/// `d` is the warning that a call of `name`, which evaluation does not
/// implement, was met.
pub open spec fn spec_is_unsupported_function_diagnostic<N>(
    d: RuntimeDiagnostic,
    trace: RuntimeExecutionTrace,
    instance: RuntimeInstance<N>,
    name: Seq<char>,
) -> bool {
    &&& d.level == RuntimeDiagnosticLevel::Warning
    &&& d.code@ == "runtime-unsupported-function"@
    &&& d.message@ == spec_unsupported_function_message(trace, instance, name)
}

/// Records a warning that the running code called `name`, a function that
/// evaluation does not implement; returns it for the host to record.
pub fn record_unsupported_function<N>(
    diagnostics: &mut Vec<RuntimeDiagnostic>,
    trace: &RuntimeExecutionTrace,
    name: &str,
    instance: &RuntimeInstance<N>,
) -> (r: RuntimeDiagnostic)
    ensures
        spec_is_unsupported_function_diagnostic(r, *trace, *instance, name@),
        spec_same_log(final(diagnostics)@, spec_logged(old(diagnostics)@, r)),
{
    let mut message = trace_message(trace, instance);
    push_str(&mut message, " function=");
    push_str(&mut message, name);
    record_host_diagnostic(diagnostics, RuntimeDiagnosticLevel::Warning, "runtime-unsupported-function".to_owned(), message)
}

/// Records a warning that the running code holds a statement of a kind that
/// execution does not implement; returns it for the host to record.
pub fn record_unsupported_statement<N>(
    diagnostics: &mut Vec<RuntimeDiagnostic>,
    trace: &RuntimeExecutionTrace,
    statement: &LoweredLogicStatement<N>,
    instance: &RuntimeInstance<N>,
) -> (r: RuntimeDiagnostic)
    ensures
        r.level == RuntimeDiagnosticLevel::Warning,
        r.code@ == "runtime-unsupported-statement"@,
        r.message@ == spec_trace_message(*trace, *instance) + " statement_kind="@ + spec_statement_kind(*statement),
        spec_same_log(final(diagnostics)@, spec_logged(old(diagnostics)@, r)),
{
    let mut message = trace_message(trace, instance);
    push_str(&mut message, " statement_kind=");
    push_str(&mut message, statement_kind(statement));
    record_host_diagnostic(diagnostics, RuntimeDiagnosticLevel::Warning, "runtime-unsupported-statement".to_owned(), message)
}

/// The names of the calls in `expr`, outermost first and arguments left to
/// right, of functions that evaluation does not implement and that are not
/// among the `scripts`.
pub open spec fn spec_unsupported_calls<N>(expr: LoweredLogicExpr<N>, scripts: Set<Seq<char>>) -> Seq<Seq<char>>
    decreases expr,
{
    match expr {
        LoweredLogicExpr::Call { name, args } => (if !spec_is_supported_eval_function(name@) && !scripts.contains(
            name@,
        ) {
            seq![name@]
        } else {
            Seq::empty()
        }) + spec_unsupported_calls_in(args@, scripts),
        LoweredLogicExpr::UnaryExpr { child, .. } => spec_unsupported_calls(*child, scripts),
        LoweredLogicExpr::BinaryExpr { left, right, .. } => spec_unsupported_calls(*left, scripts)
            + spec_unsupported_calls(*right, scripts),
        LoweredLogicExpr::MemberAccess { target, .. } => spec_unsupported_calls(*target, scripts),
        LoweredLogicExpr::IndexAccess { target, index } => spec_unsupported_calls(*target, scripts)
            + spec_unsupported_calls(*index, scripts),
        _ => Seq::empty(),
    }
}

/// [`spec_unsupported_calls`] of each expression of `exprs`, in order.
pub open spec fn spec_unsupported_calls_in<N>(exprs: Seq<LoweredLogicExpr<N>>, scripts: Set<Seq<char>>) -> Seq<
    Seq<char>,
>
    decreases exprs,
{
    if exprs.len() == 0 {
        Seq::empty()
    } else {
        spec_unsupported_calls_in(exprs.drop_last(), scripts) + spec_unsupported_calls(exprs.last(), scripts)
    }
}

/// `ds` are the warnings about the calls `names`, one each, in order.
pub open spec fn spec_unsupported_function_diagnostics<N>(
    ds: Seq<RuntimeDiagnostic>,
    trace: RuntimeExecutionTrace,
    instance: RuntimeInstance<N>,
    names: Seq<Seq<char>>,
) -> bool {
    &&& ds.len() == names.len()
    &&& forall|i: int| 0 <= i < ds.len() ==> spec_is_unsupported_function_diagnostic(#[trigger] ds[i], trace, instance, names[i])
}

/// Appends `more` to `out`, and carries what both say over to the whole.
fn append_unsupported<N>(
    out: &mut Vec<RuntimeDiagnostic>,
    more: Vec<RuntimeDiagnostic>,
    Ghost(trace): Ghost<RuntimeExecutionTrace>,
    Ghost(instance): Ghost<RuntimeInstance<N>>,
    Ghost(names_out): Ghost<Seq<Seq<char>>>,
    Ghost(names_more): Ghost<Seq<Seq<char>>>,
)
    requires
        spec_unsupported_function_diagnostics(old(out)@, trace, instance, names_out),
        spec_unsupported_function_diagnostics(more@, trace, instance, names_more),
    ensures
        final(out)@ == old(out)@ + more@,
        spec_unsupported_function_diagnostics(final(out)@, trace, instance, names_out + names_more),
{
    let mut more = more;
    let ghost a = out@;
    let ghost b = more@;
    out.append(&mut more);
    assert forall|i: int| 0 <= i < out@.len() implies spec_is_unsupported_function_diagnostic(
        #[trigger] out@[i],
        trace,
        instance,
        (names_out + names_more)[i],
    ) by {
        if i < a.len() {
            assert(out@[i] == a[i]);
        } else {
            assert(out@[i] == b[i - a.len()]);
        }
    }
}

/// Records a warning for each call in `expr` of a function that evaluation
/// does not implement and that is not one of the `script_entries`, outermost
/// first and arguments left to right; returns them, in that order, for the
/// host to record.
pub fn record_unsupported_expr_functions<N, V>(
    diagnostics: &mut Vec<RuntimeDiagnostic>,
    trace: &RuntimeExecutionTrace,
    expr: &LoweredLogicExpr<N>,
    instance: &RuntimeInstance<N>,
    script_entries: &StringHashMap<V>,
) -> (r: Vec<RuntimeDiagnostic>)
    ensures
        spec_unsupported_function_diagnostics(
            r@,
            *trace,
            *instance,
            spec_unsupported_calls(*expr, script_entries@.dom()),
        ),
        spec_same_log(final(diagnostics)@, spec_logged_all(old(diagnostics)@, r@)),
    decreases expr,
{
    let ghost scripts = script_entries@.dom();
    let ghost start = diagnostics@;
    match expr {
        LoweredLogicExpr::Call { name, args } => {
            let mut out: Vec<RuntimeDiagnostic> = Vec::new();
            let ghost head: Seq<Seq<char>> = Seq::empty();
            if !is_supported_eval_function(name.as_str()) && !script_entries.contains_key(name.as_str()) {
                let d = record_unsupported_function(diagnostics, trace, name.as_str(), instance);
                out.push(d);
                proof {
                    head = seq![name@];
                    assert(out@.drop_last() =~= Seq::<RuntimeDiagnostic>::empty());
                    assert(spec_logged_all(start, out@.drop_last()) == start);
                    assert(spec_logged_all(start, out@) == spec_logged(start, d));
                }
            } else {
                assert(spec_logged_all(start, out@) == start);
                assert(spec_same_log(start, start));
            }
            let ghost mid = diagnostics@;
            let ghost head_out = out@;
            let more = record_unsupported_in_exprs(diagnostics, trace, args, instance, script_entries);
            proof {
                lemma_same_log_all(mid, spec_logged_all(start, head_out), more@);
                lemma_logged_all_append(start, head_out, more@);
                lemma_same_log_trans(diagnostics@, spec_logged_all(mid, more@), spec_logged_all(start, head_out + more@));
            }
            append_unsupported::<N>(&mut out, more, Ghost(*trace), Ghost(*instance), Ghost(head),
                Ghost(spec_unsupported_calls_in(args@, scripts)));
            out
        },
        LoweredLogicExpr::UnaryExpr { child, .. } => record_unsupported_expr_functions(diagnostics, trace, child, instance, script_entries),
        LoweredLogicExpr::MemberAccess { target, .. } => record_unsupported_expr_functions(diagnostics, trace, target, instance, script_entries),
        LoweredLogicExpr::BinaryExpr { left, right, .. } => {
            let ghost start = diagnostics@;
            let mut out = record_unsupported_expr_functions(diagnostics, trace, left, instance, script_entries);
            let ghost mid = diagnostics@;
            let ghost first_out = out@;
            let more = record_unsupported_expr_functions(diagnostics, trace, right, instance, script_entries);
            proof {
                lemma_same_log_all(mid, spec_logged_all(start, first_out), more@);
                lemma_logged_all_append(start, first_out, more@);
                lemma_same_log_trans(diagnostics@, spec_logged_all(mid, more@), spec_logged_all(start, first_out + more@));
            }
            append_unsupported::<N>(&mut out, more, Ghost(*trace), Ghost(*instance),
                Ghost(spec_unsupported_calls(**left, scripts)),
                Ghost(spec_unsupported_calls(**right, scripts)));
            out
        },
        LoweredLogicExpr::IndexAccess { target, index } => {
            let ghost start = diagnostics@;
            let mut out = record_unsupported_expr_functions(diagnostics, trace, target, instance, script_entries);
            let ghost mid = diagnostics@;
            let ghost first_out = out@;
            let more = record_unsupported_expr_functions(diagnostics, trace, index, instance, script_entries);
            proof {
                lemma_same_log_all(mid, spec_logged_all(start, first_out), more@);
                lemma_logged_all_append(start, first_out, more@);
                lemma_same_log_trans(diagnostics@, spec_logged_all(mid, more@), spec_logged_all(start, first_out + more@));
            }
            append_unsupported::<N>(&mut out, more, Ghost(*trace), Ghost(*instance),
                Ghost(spec_unsupported_calls(**target, scripts)),
                Ghost(spec_unsupported_calls(**index, scripts)));
            out
        },
        _ => {
            assert(spec_logged_all(start, Seq::<RuntimeDiagnostic>::empty()) == start);
            assert(spec_same_log(start, start));
            Vec::new()
        },
    }
}

/// [`record_unsupported_expr_functions`] on each of `exprs`, in order.
fn record_unsupported_in_exprs<N, V>(
    diagnostics: &mut Vec<RuntimeDiagnostic>,
    trace: &RuntimeExecutionTrace,
    exprs: &Vec<LoweredLogicExpr<N>>,
    instance: &RuntimeInstance<N>,
    script_entries: &StringHashMap<V>,
) -> (r: Vec<RuntimeDiagnostic>)
    ensures
        spec_unsupported_function_diagnostics(
            r@,
            *trace,
            *instance,
            spec_unsupported_calls_in(exprs@, script_entries@.dom()),
        ),
        spec_same_log(final(diagnostics)@, spec_logged_all(old(diagnostics)@, r@)),
    decreases exprs@,
{
    let ghost scripts = script_entries@.dom();
    let ghost start = diagnostics@;
    let mut out: Vec<RuntimeDiagnostic> = Vec::new();
    assert(spec_logged_all(start, out@) == start);
    assert(spec_same_log(start, start));
    assert(exprs@.take(0) =~= Seq::<LoweredLogicExpr<N>>::empty());
    let mut i: usize = 0;
    while i < exprs.len()
        invariant
            i <= exprs@.len(),
            scripts == script_entries@.dom(),
            spec_unsupported_function_diagnostics(
                out@,
                *trace,
                *instance,
                spec_unsupported_calls_in(exprs@.take(i as int), scripts),
            ),
            spec_same_log(diagnostics@, spec_logged_all(start, out@)),
        decreases exprs@.len() - i,
    {
        let ghost before_out = out@;
        let ghost before_log = diagnostics@;
        let more = record_unsupported_expr_functions(diagnostics, trace, &exprs[i], instance, script_entries);
        proof {
            assert(exprs@.take(i + 1).drop_last() =~= exprs@.take(i as int));
            assert(exprs@.take(i + 1).last() == exprs@[i as int]);
            lemma_same_log_all(before_log, spec_logged_all(start, before_out), more@);
            lemma_logged_all_append(start, before_out, more@);
            lemma_same_log_trans(diagnostics@, spec_logged_all(before_log, more@), spec_logged_all(start, before_out + more@));
        }
        append_unsupported::<N>(&mut out, more, Ghost(*trace), Ghost(*instance),
            Ghost(spec_unsupported_calls_in(exprs@.take(i as int), scripts)),
            Ghost(spec_unsupported_calls(exprs@[i as int], scripts)));
        i = i + 1;
    }
    assert(exprs@.take(i as int) =~= exprs@);
    out
}

/// Recording the same diagnostics into logs that hold the same diagnostics
/// gives logs that hold the same diagnostics.
proof fn lemma_same_log_all(a: Seq<RuntimeDiagnostic>, b: Seq<RuntimeDiagnostic>, ds: Seq<RuntimeDiagnostic>)
    requires
        spec_same_log(a, b),
    ensures
        spec_same_log(spec_logged_all(a, ds), spec_logged_all(b, ds)),
    decreases ds.len(),
{
    if ds.len() > 0 {
        lemma_same_log_all(a, b, ds.drop_last());
        lemma_same_log_logged(spec_logged_all(a, ds.drop_last()), spec_logged_all(b, ds.drop_last()), ds.last());
    }
}

/// The log never outgrows its bound: recording into a log of at most
/// `MAX_DIAGNOSTICS` entries leaves at most `MAX_DIAGNOSTICS`, the new one last.
pub proof fn law_log_stays_bounded(log: Seq<RuntimeDiagnostic>, diagnostic: RuntimeDiagnostic)
    requires
        log.len() <= MAX_DIAGNOSTICS,
    ensures
        spec_logged(log, diagnostic).len() <= MAX_DIAGNOSTICS,
        spec_logged(log, diagnostic).last() == diagnostic,
        log.len() < MAX_DIAGNOSTICS ==> spec_logged(log, diagnostic) == log.push(diagnostic),
{
}

/// Evaluation implements exactly these functions: `room_goto`, `ord`, `abs`,
/// `floor`, `random`, `random_range`, `choose`, `string`, the binary file
/// functions, `file_exists`, `instance_exists`, `distance_to_object`,
/// `collision_line`, the keyboard checks, `keyboard_get_numlock`,
/// `place_meeting`, `place_free` and `sound_isplaying`.
pub proof fn law_supported_eval_functions(name: Seq<char>)
    ensures
        name == "room_goto"@ ==> spec_is_supported_eval_function(name),
        name == "ord"@ ==> spec_is_supported_eval_function(name),
        name == "abs"@ ==> spec_is_supported_eval_function(name),
        name == "floor"@ ==> spec_is_supported_eval_function(name),
        name == "random"@ ==> spec_is_supported_eval_function(name),
        name == "random_range"@ ==> spec_is_supported_eval_function(name),
        name == "choose"@ ==> spec_is_supported_eval_function(name),
        name == "string"@ ==> spec_is_supported_eval_function(name),
        name == "file_bin_open"@ ==> spec_is_supported_eval_function(name),
        name == "file_bin_read_byte"@ ==> spec_is_supported_eval_function(name),
        name == "file_bin_write_byte"@ ==> spec_is_supported_eval_function(name),
        name == "file_bin_close"@ ==> spec_is_supported_eval_function(name),
        name == "file_exists"@ ==> spec_is_supported_eval_function(name),
        name == "instance_exists"@ ==> spec_is_supported_eval_function(name),
        name == "distance_to_object"@ ==> spec_is_supported_eval_function(name),
        name == "collision_line"@ ==> spec_is_supported_eval_function(name),
        name == "keyboard_check"@ ==> spec_is_supported_eval_function(name),
        name == "keyboard_check_direct"@ ==> spec_is_supported_eval_function(name),
        name == "keyboard_check_pressed"@ ==> spec_is_supported_eval_function(name),
        name == "keyboard_check_released"@ ==> spec_is_supported_eval_function(name),
        name == "keyboard_get_numlock"@ ==> spec_is_supported_eval_function(name),
        name == "place_meeting"@ ==> spec_is_supported_eval_function(name),
        name == "place_free"@ ==> spec_is_supported_eval_function(name),
        name == "sound_isplaying"@ ==> spec_is_supported_eval_function(name),
        spec_is_supported_eval_function(name) ==> name == "room_goto"@ || name == "ord"@ || name == "abs"@ || name == "floor"@ || name == "random"@ || name == "random_range"@ || name == "choose"@ || name == "string"@ || name == "file_bin_open"@ || name == "file_bin_read_byte"@ || name == "file_bin_write_byte"@ || name == "file_bin_close"@ || name == "file_exists"@ || name == "instance_exists"@ || name == "distance_to_object"@ || name == "collision_line"@ || name == "keyboard_check"@ || name == "keyboard_check_direct"@ || name == "keyboard_check_pressed"@ || name == "keyboard_check_released"@ || name == "keyboard_get_numlock"@ || name == "place_meeting"@ || name == "place_free"@ || name == "sound_isplaying"@,
{
}

/// Diagnostics name each kind of statement: `assignment`,
/// `variable-declaration`, `return`, `function-call`, `conditional`, `with`,
/// `repeat`, `while`, `for` and `raw`.
pub proof fn law_statement_kinds_are_named<N>(statement: LoweredLogicStatement<N>)
    ensures
        statement matches LoweredLogicStatement::Assignment { .. } ==> spec_statement_kind(statement) == "assignment"@,
        statement matches LoweredLogicStatement::VariableDeclaration { .. } ==> spec_statement_kind(statement) == "variable-declaration"@,
        statement matches LoweredLogicStatement::Return { .. } ==> spec_statement_kind(statement) == "return"@,
        statement matches LoweredLogicStatement::FunctionCall { .. } ==> spec_statement_kind(statement) == "function-call"@,
        statement matches LoweredLogicStatement::Conditional { .. } ==> spec_statement_kind(statement) == "conditional"@,
        statement matches LoweredLogicStatement::With { .. } ==> spec_statement_kind(statement) == "with"@,
        statement matches LoweredLogicStatement::Repeat { .. } ==> spec_statement_kind(statement) == "repeat"@,
        statement matches LoweredLogicStatement::While { .. } ==> spec_statement_kind(statement) == "while"@,
        statement matches LoweredLogicStatement::For { .. } ==> spec_statement_kind(statement) == "for"@,
        statement matches LoweredLogicStatement::Raw { .. } ==> spec_statement_kind(statement) == "raw"@,
{
}

} // verus!
