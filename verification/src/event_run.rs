//! Running the code blocks of an event on one instance: each block in turn
//! with a fresh local scope, its statements in order, its updates committed
//! when it ends, and nothing more once a scene change is pending.

use vstd::prelude::*;

verus! {

/// Where a run of event blocks is.
#[derive(Clone, Copy, Debug, PartialEq, Eq)]
pub enum EventRunStage {
    Start,
    AfterBegin { entry: usize },
    AfterStatement { entry: usize, statement: usize },
    AfterCommit { entry: usize },
    Finished,
}

/// The next piece of work of a run of event blocks.
#[derive(Clone, Copy, Debug, PartialEq, Eq)]
pub enum EventRunAction {
    /// Start block `entry` with a fresh local scope.
    BeginEntry { entry: usize },
    /// Run statement `statement` of block `entry`, then take over the
    /// updates it made to the running instance.
    RunStatement { entry: usize, statement: usize },
    /// Commit the updates block `entry` made to other instances.
    CommitEntry { entry: usize },
    /// Write the updated instances back to the room and carry out the
    /// creations requested.
    WriteBack,
    /// The run is over.
    Done,
}

/// The first listed block at or after `k` that exists; `lengths[i]` is the
/// number of statements of the `i`-th listed block, `None` where it does not
/// exist.
pub open spec fn spec_first_entry_from(lengths: Seq<Option<usize>>, k: int) -> Option<int>
    decreases lengths.len() - k,
{
    if k < 0 || k >= lengths.len() {
        None
    } else if lengths[k] is Some {
        Some(k)
    } else {
        spec_first_entry_from(lengths, k + 1)
    }
}

/// Beginning the first existing block at or after `k`, or writing back where
/// none is left.
pub open spec fn spec_begin_from(lengths: Seq<Option<usize>>, k: int) -> (EventRunStage, EventRunAction) {
    match spec_first_entry_from(lengths, k) {
        None => (EventRunStage::Finished, EventRunAction::WriteBack),
        Some(j) => (EventRunStage::AfterBegin { entry: j as usize }, EventRunAction::BeginEntry { entry: j as usize }),
    }
}

/// The number of statements of an existing block.
pub open spec fn spec_entry_len(lengths: Seq<Option<usize>>, entry: usize) -> usize {
    lengths[entry as int]->0
}

/// The stage names an existing block, and a statement within it.
pub open spec fn spec_stage_valid(stage: EventRunStage, lengths: Seq<Option<usize>>) -> bool {
    match stage {
        EventRunStage::AfterBegin { entry } => entry < lengths.len() && lengths[entry as int] is Some,
        EventRunStage::AfterStatement { entry, statement } => entry < lengths.len() && lengths[entry as int] is Some
            && statement < spec_entry_len(lengths, entry),
        EventRunStage::AfterCommit { entry } => entry < lengths.len() && lengths[entry as int] is Some,
        _ => true,
    }
}

/// The next stage and action of a run at `stage`, given whether a scene
/// change is pending after the last action.
pub open spec fn spec_next_event_run_step(
    stage: EventRunStage,
    scene_change_pending: bool,
    lengths: Seq<Option<usize>>,
) -> (EventRunStage, EventRunAction) {
    match stage {
        EventRunStage::Start => spec_begin_from(lengths, 0),
        EventRunStage::AfterBegin { entry } => if spec_entry_len(lengths, entry) == 0 {
            (EventRunStage::AfterCommit { entry }, EventRunAction::CommitEntry { entry })
        } else {
            (
                EventRunStage::AfterStatement { entry, statement: 0 },
                EventRunAction::RunStatement { entry, statement: 0 },
            )
        },
        EventRunStage::AfterStatement { entry, statement } => if scene_change_pending || statement + 1
            >= spec_entry_len(lengths, entry) {
            (EventRunStage::AfterCommit { entry }, EventRunAction::CommitEntry { entry })
        } else {
            (
                EventRunStage::AfterStatement { entry, statement: (statement + 1) as usize },
                EventRunAction::RunStatement { entry, statement: (statement + 1) as usize },
            )
        },
        EventRunStage::AfterCommit { entry } => if scene_change_pending {
            (EventRunStage::Finished, EventRunAction::WriteBack)
        } else {
            spec_begin_from(lengths, entry + 1)
        },
        EventRunStage::Finished => (EventRunStage::Finished, EventRunAction::Done),
    }
}

/// The first listed block at or after `k` that exists.
fn first_entry_from(lengths: &Vec<Option<usize>>, k: usize) -> (r: Option<usize>)
    ensures
        match spec_first_entry_from(lengths@, k as int) {
            Some(j) => r == Some(j as usize),
            None => r is None,
        },
{
    let mut j: usize = k;
    while j < lengths.len()
        invariant
            k <= j,
            spec_first_entry_from(lengths@, k as int) == spec_first_entry_from(lengths@, j as int),
        decreases lengths@.len() - j,
    {
        if lengths[j].is_some() {
            return Some(j);
        }
        j = j + 1;
    }
    None
}

/// The next stage and action of a run at `stage` (see
/// [`spec_next_event_run_step`]).
pub fn next_event_run_step(stage: EventRunStage, scene_change_pending: bool, lengths: &Vec<Option<usize>>) -> (r: (
    EventRunStage,
    EventRunAction,
))
    requires
        spec_stage_valid(stage, lengths@),
    ensures
        r == spec_next_event_run_step(stage, scene_change_pending, lengths@),
        spec_stage_valid(r.0, lengths@),
{
    match stage {
        EventRunStage::Start => begin_from(lengths, 0),
        EventRunStage::AfterBegin { entry } => {
            let n = match lengths[entry] {
                Some(n) => n,
                None => 0,
            };
            if n == 0 {
                (EventRunStage::AfterCommit { entry }, EventRunAction::CommitEntry { entry })
            } else {
                (
                    EventRunStage::AfterStatement { entry, statement: 0 },
                    EventRunAction::RunStatement { entry, statement: 0 },
                )
            }
        },
        EventRunStage::AfterStatement { entry, statement } => {
            let n = match lengths[entry] {
                Some(n) => n,
                None => 0,
            };
            if scene_change_pending || statement + 1 >= n {
                (EventRunStage::AfterCommit { entry }, EventRunAction::CommitEntry { entry })
            } else {
                (
                    EventRunStage::AfterStatement { entry, statement: statement + 1 },
                    EventRunAction::RunStatement { entry, statement: statement + 1 },
                )
            }
        },
        EventRunStage::AfterCommit { entry } => if scene_change_pending {
            (EventRunStage::Finished, EventRunAction::WriteBack)
        } else {
            let count = lengths.len();
            assert(entry < count);
            begin_from(lengths, entry + 1)
        },
        EventRunStage::Finished => (EventRunStage::Finished, EventRunAction::Done),
    }
}

fn begin_from(lengths: &Vec<Option<usize>>, k: usize) -> (r: (EventRunStage, EventRunAction))
    ensures
        r == spec_begin_from(lengths@, k as int),
        spec_stage_valid(r.0, lengths@),
{
    let count = lengths.len();
    match first_entry_from(lengths, k) {
        None => (EventRunStage::Finished, EventRunAction::WriteBack),
        Some(j) => {
            proof {
                lemma_first_entry_exists(lengths@, k as int);
                let found = spec_first_entry_from(lengths@, k as int)->0;
                assert(found < count);
                assert(found as usize == j);
            }
            (EventRunStage::AfterBegin { entry: j }, EventRunAction::BeginEntry { entry: j })
        },
    }
}

proof fn lemma_first_entry_exists(lengths: Seq<Option<usize>>, k: int)
    ensures
        spec_first_entry_from(lengths, k) matches Some(j) ==> k <= j < lengths.len() && lengths[j] is Some,
    decreases lengths.len() - k,
{
    if 0 <= k < lengths.len() && lengths[k] is None {
        lemma_first_entry_exists(lengths, k + 1);
    }
}

/// No statement runs once a scene change is pending: after a statement or a
/// commit that left one pending, the run commits the block and writes back.
pub proof fn law_scene_change_stops_the_run(stage: EventRunStage, lengths: Seq<Option<usize>>)
    requires
        stage is AfterStatement || stage is AfterCommit,
    ensures
        !(spec_next_event_run_step(stage, true, lengths).1 is RunStatement),
        !(spec_next_event_run_step(stage, true, lengths).1 is BeginEntry),
{
}

/// Statements run in order: the statement after statement `s` of a block is
/// statement `s + 1` of the same block, and a block's first statement comes
/// right after it begins.
pub proof fn law_statements_run_in_order(stage: EventRunStage, scene_change_pending: bool, lengths: Seq<Option<usize>>)
    ensures
        spec_next_event_run_step(stage, scene_change_pending, lengths).1 matches EventRunAction::RunStatement {
            entry,
            statement,
        } ==> (statement == 0 && stage == (EventRunStage::AfterBegin { entry })) || (statement > 0 && stage == (
        EventRunStage::AfterStatement { entry, statement: (statement - 1) as usize })),
{
}

/// The most times a `repeat` or `for` body runs in one statement.
pub const MAX_LOOP_ITERATIONS: usize = 10000;

/// How many times a `repeat` body runs for a requested count: at most
/// `MAX_LOOP_ITERATIONS`, with a warning where the request was cut.
pub fn repeat_iterations(requested: usize) -> (r: (usize, bool))
    ensures
        r.0 == (if requested <= MAX_LOOP_ITERATIONS { requested } else { MAX_LOOP_ITERATIONS }),
        r.1 == (requested > MAX_LOOP_ITERATIONS),
{
    if requested <= MAX_LOOP_ITERATIONS {
        (requested, false)
    } else {
        (MAX_LOOP_ITERATIONS, true)
    }
}

/// After a `for` loop has finished iteration `done` (counted from zero): the
/// number of iterations finished, and whether the loop stops at its limit,
/// with a warning.
pub fn for_iteration_finished(done: usize) -> (r: (usize, bool))
    requires
        done < MAX_LOOP_ITERATIONS,
    ensures
        r.0 == done + 1,
        r.1 == (done + 1 >= MAX_LOOP_ITERATIONS),
{
    let finished = done + 1;
    (finished, finished >= MAX_LOOP_ITERATIONS)
}

/// A run begins the next block that exists and skips only missing ones: the
/// block after position `k` that [`spec_begin_from`] begins is the first
/// existing one at or after `k`, and where it begins none the rest are all
/// missing; a begun block runs its first statement right away where it has
/// one, and is committed at once where it is empty.
pub proof fn law_runs_skip_only_missing_blocks(lengths: Seq<Option<usize>>, k: int, entry: usize)
    requires
        0 <= k,
    ensures
        spec_first_entry_from(lengths, k) matches Some(j) ==> k <= j < lengths.len() && lengths[j] is Some
            && forall|m: int| k <= m < j ==> lengths[m] is None,
        spec_first_entry_from(lengths, k) is None ==> forall|m: int| k <= m < lengths.len() ==> lengths[m] is None,
        entry < lengths.len() && lengths[entry as int] is Some ==> spec_next_event_run_step(
            EventRunStage::AfterBegin { entry },
            false,
            lengths,
        ).1 == (if lengths[entry as int]->0 == 0 {
            EventRunAction::CommitEntry { entry }
        } else {
            EventRunAction::RunStatement { entry, statement: 0 }
        }),
    decreases lengths.len() - k,
{
    if k < lengths.len() && lengths[k] is None {
        law_runs_skip_only_missing_blocks(lengths, k + 1, entry);
    }
}

} // verus!
