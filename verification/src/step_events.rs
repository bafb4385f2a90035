//! Which instances a step pass runs, and whether a player's step code takes
//! over its jump.

use std::collections::HashMap;

use vstd::prelude::*;

use crate::lowered::{spec_stmts_jump, statements_reference_jump_queries, LoweredLogicEntry};
use crate::context::StepExecutionResult;
use crate::model::RuntimeInstance;

verus! {

/// The first `k` instances that run step events: each alive one whose object
/// has step entries in `entries_by_object`, with its position and object id,
/// in room order.
pub open spec fn spec_step_dispatches<N>(
    instances: Seq<RuntimeInstance<N>>,
    entries_by_object: Map<usize, Vec<usize>>,
    k: int,
) -> Seq<(usize, usize)>
    decreases k,
{
    if k <= 0 {
        Seq::empty()
    } else {
        let rest = spec_step_dispatches(instances, entries_by_object, k - 1);
        let instance = instances[k - 1];
        if instance.alive && entries_by_object.contains_key(instance.object_id) {
            rest.push(((k - 1) as usize, instance.object_id))
        } else {
            rest
        }
    }
}

/// The instances a step pass runs, in room order (see
/// [`spec_step_dispatches`]).
pub fn step_dispatches<N>(
    instances: &Vec<RuntimeInstance<N>>,
    entries_by_object: &HashMap<usize, Vec<usize>>,
) -> (r: Vec<(usize, usize)>)
    ensures
        r@ == spec_step_dispatches(instances@, entries_by_object@, instances@.len() as int),
{
    broadcast use vstd::std_specs::hash::group_hash_axioms;
    let mut out: Vec<(usize, usize)> = Vec::new();
    let mut i: usize = 0;
    while i < instances.len()
        invariant
            i <= instances@.len(),
            out@ == spec_step_dispatches(instances@, entries_by_object@, i as int),
        decreases instances@.len() - i,
    {
        let instance = &instances[i];
        if instance.alive && entries_by_object.contains_key(&instance.object_id) {
            out.push((i, instance.object_id));
        }
        i = i + 1;
    }
    out
}

/// A player's step code takes over its jump: the instance is the player and
/// one of the entries its step runs queries the jump button.
pub open spec fn spec_player_jump_owned<N>(
    is_player: bool,
    entry_indices: Seq<usize>,
    entries: Seq<LoweredLogicEntry<N>>,
) -> bool {
    is_player && exists|j: int|
        0 <= j < entry_indices.len() && entry_indices[j] < entries.len() && spec_stmts_jump(
            #[trigger] entries[entry_indices[j] as int].statements@,
        )
}

/// Whether a player's step code takes over its jump (see
/// [`spec_player_jump_owned`]); entry positions past the end are skipped.
pub fn player_jump_owned_by_script<N>(
    is_player: bool,
    entry_indices: &Vec<usize>,
    entries: &Vec<LoweredLogicEntry<N>>,
) -> (r: bool)
    ensures
        r == spec_player_jump_owned(is_player, entry_indices@, entries@),
{
    if !is_player {
        return false;
    }
    let mut j: usize = 0;
    while j < entry_indices.len()
        invariant
            is_player,
            j <= entry_indices@.len(),
            forall|k: int|
                0 <= k < j && entry_indices@[k] < entries@.len() ==> !spec_stmts_jump(
                    #[trigger] entries@[entry_indices@[k] as int].statements@,
                ),
        decreases entry_indices@.len() - j,
    {
        let index = entry_indices[j];
        if index < entries.len() && statements_reference_jump_queries(&entries[index].statements) {
            assert(spec_stmts_jump(entries@[entry_indices@[j as int] as int].statements@));
            return true;
        }
        j = j + 1;
    }
    false
}

/// Where a step pass is: the next dispatch to run, the flags so far, and
/// whether a scene change has cut the pass short.
#[derive(Clone, Copy, Debug, PartialEq, Eq)]
pub struct StepPassState {
    pub next: usize,
    pub result: StepExecutionResult,
    pub stopped: bool,
    pub finished: bool,
}

/// What running one dispatch of a step pass reported: whether the instance
/// was there and alive so that its step ran, whether it is the player,
/// whether its step code queries the jump button (see
/// [`player_jump_owned_by_script`]), whether its position or speed changed,
/// and whether a scene change is pending afterwards.
#[derive(Clone, Copy, Debug, PartialEq, Eq)]
pub struct StepInstanceReport {
    pub ran: bool,
    pub is_player: bool,
    pub jump_owned: bool,
    pub motion_changed: bool,
    pub scene_change_pending: bool,
}

/// The next piece of work of a step pass.
#[derive(Clone, Copy, Debug, PartialEq, Eq)]
pub enum StepPassAction {
    /// Run the step events of dispatch `dispatch` (see [`step_dispatches`]).
    RunInstance { dispatch: usize },
    /// Write the updated instances back, carry out the creations, and report
    /// `result`.
    WriteBack { result: StepExecutionResult },
    Done,
}

/// A step pass that has not started.
pub open spec fn spec_step_pass_start() -> StepPassState {
    StepPassState {
        next: 0,
        result: StepExecutionResult {
            interrupted: false,
            player_motion_changed: false,
            player_jump_owned_by_script: false,
        },
        stopped: false,
        finished: false,
    }
}

/// A step pass that has not started.
pub fn step_pass_start() -> (r: StepPassState)
    ensures
        r == spec_step_pass_start(),
{
    StepPassState {
        next: 0,
        result: StepExecutionResult {
            interrupted: false,
            player_motion_changed: false,
            player_jump_owned_by_script: false,
        },
        stopped: false,
        finished: false,
    }
}

/// The next action of a step pass over `dispatch_count` dispatches: the next
/// dispatch, until they run out or a scene change stops the pass, then the
/// write-back with the flags, then nothing.
pub open spec fn spec_next_step_pass_action(state: StepPassState, dispatch_count: usize) -> (StepPassState, StepPassAction) {
    if state.finished {
        (state, StepPassAction::Done)
    } else if state.stopped || state.next >= dispatch_count {
        (StepPassState { finished: true, ..state }, StepPassAction::WriteBack { result: state.result })
    } else {
        (state, StepPassAction::RunInstance { dispatch: state.next })
    }
}

/// The next action of a step pass (see [`spec_next_step_pass_action`]).
pub fn next_step_pass_action(state: StepPassState, dispatch_count: usize) -> (r: (StepPassState, StepPassAction))
    ensures
        r == spec_next_step_pass_action(state, dispatch_count),
{
    if state.finished {
        (state, StepPassAction::Done)
    } else if state.stopped || state.next >= dispatch_count {
        (StepPassState { finished: true, ..state }, StepPassAction::WriteBack { result: state.result })
    } else {
        (state, StepPassAction::RunInstance { dispatch: state.next })
    }
}

/// The pass after a dispatch ran: a player whose step code queries the jump
/// button owns the jump; a scene change stops the pass, marked interrupted;
/// else a player that moved counts as moved, and the pass goes on to the
/// next dispatch.
pub open spec fn spec_after_step_instance(state: StepPassState, report: StepInstanceReport) -> StepPassState {
    if !report.ran {
        StepPassState { next: (state.next + 1) as usize, ..state }
    } else {
        let owned = state.result.player_jump_owned_by_script || (report.is_player && report.jump_owned);
        if report.scene_change_pending {
            StepPassState {
                result: StepExecutionResult { interrupted: true, player_jump_owned_by_script: owned, ..state.result },
                stopped: true,
                ..state
            }
        } else {
            StepPassState {
                next: (state.next + 1) as usize,
                result: StepExecutionResult {
                    player_jump_owned_by_script: owned,
                    player_motion_changed: state.result.player_motion_changed || (report.is_player
                        && report.motion_changed),
                    ..state.result
                },
                ..state
            }
        }
    }
}

/// The pass after a dispatch ran (see [`spec_after_step_instance`]).
pub fn after_step_instance(state: StepPassState, report: StepInstanceReport) -> (r: StepPassState)
    requires
        state.next < usize::MAX,
    ensures
        r == spec_after_step_instance(state, report),
{
    if !report.ran {
        return StepPassState { next: state.next + 1, ..state };
    }
    let owned = state.result.player_jump_owned_by_script || (report.is_player && report.jump_owned);
    if report.scene_change_pending {
        StepPassState {
            result: StepExecutionResult { interrupted: true, player_jump_owned_by_script: owned, ..state.result },
            stopped: true,
            ..state
        }
    } else {
        StepPassState {
            next: state.next + 1,
            result: StepExecutionResult {
                player_jump_owned_by_script: owned,
                player_motion_changed: state.result.player_motion_changed || (report.is_player
                    && report.motion_changed),
                ..state.result
            },
            ..state
        }
    }
}

/// A step pass reports an interruption exactly when a scene change stopped
/// it, and the flags only ever turn on.
pub proof fn law_step_flags_only_turn_on(state: StepPassState, report: StepInstanceReport)
    ensures
        ({
            let after = spec_after_step_instance(state, report);
            &&& state.result.interrupted ==> after.result.interrupted
            &&& state.result.player_motion_changed ==> after.result.player_motion_changed
            &&& state.result.player_jump_owned_by_script ==> after.result.player_jump_owned_by_script
            &&& after.result.interrupted == (state.result.interrupted || (report.ran && report.scene_change_pending))
        }),
{
}

/// A step pass runs exactly the alive instances whose object has step
/// entries, each once, in room order, with its own object id.
pub proof fn law_step_dispatches_are_the_live_stepping_instances<N>(
    instances: Seq<RuntimeInstance<N>>,
    entries_by_object: Map<usize, Vec<usize>>,
    k: int,
    i: usize,
    o: usize,
)
    requires
        0 <= k <= instances.len(),
        instances.len() <= usize::MAX,
    ensures
        spec_step_dispatches(instances, entries_by_object, k).contains((i, o)) <==> (i < k && instances[i as int].alive
            && entries_by_object.contains_key(instances[i as int].object_id) && o == instances[i as int].object_id),
        forall|a: int, b: int|
            0 <= a < b < spec_step_dispatches(instances, entries_by_object, k).len() ==> (#[trigger] spec_step_dispatches(
                instances,
                entries_by_object,
                k,
            )[a]).0 < (#[trigger] spec_step_dispatches(instances, entries_by_object, k)[b]).0,
    decreases k,
{
    if k > 0 {
        law_step_dispatches_are_the_live_stepping_instances(instances, entries_by_object, k - 1, i, o);
        let rest = spec_step_dispatches(instances, entries_by_object, k - 1);
        lemma_step_dispatches_below(instances, entries_by_object, k - 1);
        let inst = instances[k - 1];
        if inst.alive && entries_by_object.contains_key(inst.object_id) {
            let pushed = rest.push(((k - 1) as usize, inst.object_id));
            if pushed.contains((i, o)) && !rest.contains((i, o)) {
                let q = choose|q: int| 0 <= q < pushed.len() && pushed[q] == (i, o);
                if q < rest.len() {
                    assert(rest[q] == (i, o));
                }
            }
            if rest.contains((i, o)) {
                let q = choose|q: int| 0 <= q < rest.len() && rest[q] == (i, o);
                assert(pushed[q] == (i, o));
            }
            if i == k - 1 && o == inst.object_id {
                assert(pushed[rest.len() as int] == (i, o));
            }
            assert forall|a: int, b: int| 0 <= a < b < pushed.len() implies (#[trigger] pushed[a]).0 < (
            #[trigger] pushed[b]).0 by {
                if b == rest.len() {
                    assert(pushed[a] == rest[a]);
                    assert(rest[a].0 < k - 1);
                    assert(pushed[b].0 == (k - 1) as usize);
                } else {
                    assert(pushed[a] == rest[a] && pushed[b] == rest[b]);
                }
            }
        } else {
            if i == k - 1 {
                if rest.contains((i, o)) {
                    let q = choose|q: int| 0 <= q < rest.len() && rest[q] == (i, o);
                    assert(rest[q].0 < k - 1);
                }
            }
        }
    }
}

proof fn lemma_step_dispatches_below<N>(instances: Seq<RuntimeInstance<N>>, entries_by_object: Map<usize, Vec<usize>>, k: int)
    requires
        0 <= k <= instances.len(),
        instances.len() <= usize::MAX,
    ensures
        forall|a: int|
            0 <= a < spec_step_dispatches(instances, entries_by_object, k).len() ==> (#[trigger] spec_step_dispatches(
                instances,
                entries_by_object,
                k,
            )[a]).0 < k,
    decreases k,
{
    if k > 0 {
        lemma_step_dispatches_below(instances, entries_by_object, k - 1);
        let rest = spec_step_dispatches(instances, entries_by_object, k - 1);
        let inst = instances[k - 1];
        if inst.alive && entries_by_object.contains_key(inst.object_id) {
            let pushed = rest.push(((k - 1) as usize, inst.object_id));
            assert forall|a: int| 0 <= a < pushed.len() implies (#[trigger] pushed[a]).0 < k by {
                if a < rest.len() {
                    assert(pushed[a] == rest[a]);
                }
            }
        }
    }
}

} // verus!
