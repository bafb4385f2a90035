//! Collision events: which instance pairs a pass tests, in what order the hits
//! are handled, and what each hit does.

use std::collections::HashMap;

use vstd::prelude::*;

use crate::model::RuntimeInstance;

verus! {

/// A collision found by a pass: the instance, the object its collision event
/// names, the instance it touches, whether either is solid, and the row a
/// falling instance lands on where it passed the other's top.
#[derive(Clone, Copy, Debug, PartialEq, Eq)]
pub struct RuntimeCollisionHit {
    pub instance_idx: usize,
    pub target_object_id: usize,
    pub other_idx: usize,
    pub solid_collision: bool,
    pub contact_y: Option<i32>,
}

/// The queries of instance `i` for one target: one per object that matches it.
pub open spec fn spec_matching_queries(i: usize, target: usize, matching: Seq<usize>) -> Seq<(usize, usize, usize)> {
    matching.map_values(|m: usize| (i, target, m))
}

/// The queries of instance `i` for its collision targets, in order.
pub open spec fn spec_target_queries(
    i: usize,
    targets: Seq<usize>,
    matching_by_target: Map<usize, Vec<usize>>,
) -> Seq<(usize, usize, usize)>
    decreases targets.len(),
{
    if targets.len() == 0 {
        Seq::empty()
    } else {
        let rest = spec_target_queries(i, targets.drop_last(), matching_by_target);
        let t = targets.last();
        if matching_by_target.contains_key(t) {
            rest + spec_matching_queries(i, t, matching_by_target[t]@)
        } else {
            rest
        }
    }
}

/// The queries a collision pass makes over the first `k` instances: for each
/// alive instance in room order, each object it has a collision event with,
/// and each object that matches that target, the instance's position, the
/// target and the matching object whose instances are tested.
pub open spec fn spec_collision_queries<N>(
    instances: Seq<RuntimeInstance<N>>,
    targets_by_object: Map<usize, Vec<usize>>,
    matching_by_target: Map<usize, Vec<usize>>,
    k: int,
) -> Seq<(usize, usize, usize)>
    decreases k,
{
    if k <= 0 {
        Seq::empty()
    } else {
        let rest = spec_collision_queries(instances, targets_by_object, matching_by_target, k - 1);
        let instance = instances[k - 1];
        if instance.alive && targets_by_object.contains_key(instance.object_id) {
            rest + spec_target_queries(
                (k - 1) as usize,
                targets_by_object[instance.object_id]@,
                matching_by_target,
            )
        } else {
            rest
        }
    }
}

/// The queries a collision pass makes (see [`spec_collision_queries`]).
pub fn collision_queries<N>(
    instances: &Vec<RuntimeInstance<N>>,
    targets_by_object: &HashMap<usize, Vec<usize>>,
    matching_by_target: &HashMap<usize, Vec<usize>>,
) -> (r: Vec<(usize, usize, usize)>)
    ensures
        r@ == spec_collision_queries(instances@, targets_by_object@, matching_by_target@, instances@.len() as int),
{
    broadcast use vstd::std_specs::hash::group_hash_axioms;
    let mut out: Vec<(usize, usize, usize)> = Vec::new();
    let mut i: usize = 0;
    while i < instances.len()
        invariant
            i <= instances@.len(),
            out@ == spec_collision_queries(instances@, targets_by_object@, matching_by_target@, i as int),
        decreases instances@.len() - i,
    {
        let instance = &instances[i];
        if instance.alive {
            match targets_by_object.get(&instance.object_id) {
                Some(targets) => {
                    let ghost start = out@;
                    let mut t: usize = 0;
                    assert(targets@.take(0) =~= Seq::<usize>::empty());
                    assert(start + Seq::<(usize, usize, usize)>::empty() =~= start);
                    while t < targets.len()
                        invariant
                            t <= targets@.len(),
                            out@ == start + spec_target_queries(i, targets@.take(t as int), matching_by_target@),
                        decreases targets@.len() - t,
                    {
                        assert(targets@.take(t + 1).drop_last() =~= targets@.take(t as int));
                        let target = targets[t];
                        match matching_by_target.get(&target) {
                            Some(matching) => {
                                let ghost before = out@;
                                let mut m: usize = 0;
                                while m < matching.len()
                                    invariant
                                        m <= matching@.len(),
                                        out@ == before + spec_matching_queries(i, target, matching@.take(m as int)),
                                    decreases matching@.len() - m,
                                {
                                    out.push((i, target, matching[m]));
                                    assert(spec_matching_queries(i, target, matching@.take(m + 1))
                                        =~= spec_matching_queries(i, target, matching@.take(m as int)).push((i, target, matching@[m as int])));
                                    m = m + 1;
                                }
                                assert(matching@.take(m as int) =~= matching@);
                                assert(out@ =~= start + spec_target_queries(i, targets@.take(t + 1), matching_by_target@));
                            },
                            None => {},
                        }
                        t = t + 1;
                    }
                    assert(targets@.take(t as int) =~= targets@);
                },
                None => {},
            }
        }
        i = i + 1;
    }
    out
}

/// The hits in the order a pass handles them: the solid ones first, then the
/// others, each in the order they were found.
pub open spec fn spec_ordered_hits(hits: Seq<RuntimeCollisionHit>) -> Seq<RuntimeCollisionHit> {
    hits.filter(|h: RuntimeCollisionHit| h.solid_collision) + hits.filter(|h: RuntimeCollisionHit| !h.solid_collision)
}

/// The hits in the order a pass handles them (see [`spec_ordered_hits`]).
pub fn order_collision_hits(hits: &Vec<RuntimeCollisionHit>) -> (r: Vec<RuntimeCollisionHit>)
    ensures
        r@ == spec_ordered_hits(hits@),
{
    let mut solid: Vec<RuntimeCollisionHit> = Vec::new();
    let mut other: Vec<RuntimeCollisionHit> = Vec::new();
    let mut i: usize = 0;
    while i < hits.len()
        invariant
            i <= hits@.len(),
            solid@ == hits@.take(i as int).filter(|h: RuntimeCollisionHit| h.solid_collision),
            other@ == hits@.take(i as int).filter(|h: RuntimeCollisionHit| !h.solid_collision),
        decreases hits@.len() - i,
    {
        let hit = hits[i];
        proof {
            assert(hits@.take(i + 1).drop_last() =~= hits@.take(i as int));
            assert(hits@.take(i + 1).last() == hit);
            reveal(Seq::filter);
        }
        if hit.solid_collision {
            solid.push(hit);
        } else {
            other.push(hit);
        }
        i = i + 1;
    }
    assert(hits@.take(i as int) =~= hits@);
    solid.append(&mut other);
    solid
}

/// What handling a hit does.
#[derive(Clone, Copy, Debug, PartialEq, Eq)]
pub enum CollisionResponse {
    /// The hit is stale: an instance is gone, dead, or no longer touching.
    Skip,
    /// Both instances go back to their previous positions.
    Rollback,
    /// The falling instance is put on row `contact_y`.
    Land { contact_y: i32 },
    /// The collision event runs with no change of position.
    Touch,
}

/// The response to a hit when its turn comes: skipped where either index is
/// out of the room, either instance is dead, or the instances neither still
/// overlap nor have a landing row; else a rollback where either is solid now,
/// a landing where the hit has a row, and a plain touch otherwise.
pub open spec fn spec_collision_response(
    hit: RuntimeCollisionHit,
    room_len: usize,
    instance_alive: bool,
    other_alive: bool,
    still_overlapping: bool,
    solid_now: bool,
) -> CollisionResponse {
    if hit.instance_idx >= room_len || hit.other_idx >= room_len || !instance_alive || !other_alive || !(
    hit.contact_y is Some || still_overlapping) {
        CollisionResponse::Skip
    } else if solid_now {
        CollisionResponse::Rollback
    } else {
        match hit.contact_y {
            Some(y) => CollisionResponse::Land { contact_y: y },
            None => CollisionResponse::Touch,
        }
    }
}

/// The response to a hit (see [`spec_collision_response`]): `instance_alive`,
/// `other_alive`, `still_overlapping` and `solid_now` describe the two
/// instances as they are when the hit's turn comes.
pub fn collision_response(
    hit: RuntimeCollisionHit,
    room_len: usize,
    instance_alive: bool,
    other_alive: bool,
    still_overlapping: bool,
    solid_now: bool,
) -> (r: CollisionResponse)
    ensures
        r == spec_collision_response(hit, room_len, instance_alive, other_alive, still_overlapping, solid_now),
{
    if hit.instance_idx >= room_len || hit.other_idx >= room_len || !instance_alive || !other_alive {
        return CollisionResponse::Skip;
    }
    if !(hit.contact_y.is_some() || still_overlapping) {
        return CollisionResponse::Skip;
    }
    if solid_now {
        CollisionResponse::Rollback
    } else {
        match hit.contact_y {
            Some(y) => CollisionResponse::Land { contact_y: y },
            None => CollisionResponse::Touch,
        }
    }
}

/// The order of handling keeps every hit and adds none: the ordered hits are
/// a rearrangement of the found ones, and no solid hit follows one that is
/// not solid.
pub proof fn law_ordered_hits_are_a_stable_partition(hits: Seq<RuntimeCollisionHit>)
    ensures
        spec_ordered_hits(hits).to_multiset() == hits.to_multiset(),
        forall|i: int, j: int|
            0 <= i < j < hits.len() && (#[trigger] spec_ordered_hits(hits)[i]).solid_collision == false ==> !(
            #[trigger] spec_ordered_hits(hits)[j]).solid_collision,
{
    let s = hits.filter(|h: RuntimeCollisionHit| h.solid_collision);
    let o = hits.filter(|h: RuntimeCollisionHit| !h.solid_collision);
    vstd::seq_lib::lemma_multiset_commutative(s, o);
    lemma_filter_partition(hits);
    hits.filter_lemma(|h: RuntimeCollisionHit| h.solid_collision);
    hits.filter_lemma(|h: RuntimeCollisionHit| !h.solid_collision);
    lemma_partition_len(hits);
    assert forall|i: int, j: int|
        0 <= i < j < hits.len() && (#[trigger] spec_ordered_hits(hits)[i]).solid_collision == false implies !(
        #[trigger] spec_ordered_hits(hits)[j]).solid_collision by {
        let r = spec_ordered_hits(hits);
        if i < s.len() {
            assert(r[i] == s[i]);
        }
        assert(j >= s.len());
        assert(r[j] == o[j - s.len()]);
    }
}

proof fn lemma_partition_len(hits: Seq<RuntimeCollisionHit>)
    ensures
        hits.filter(|h: RuntimeCollisionHit| h.solid_collision).len() + hits.filter(
            |h: RuntimeCollisionHit| !h.solid_collision,
        ).len() == hits.len(),
    decreases hits.len(),
{
    reveal(Seq::filter);
    if hits.len() > 0 {
        lemma_partition_len(hits.drop_last());
    }
}

proof fn lemma_filter_partition(hits: Seq<RuntimeCollisionHit>)
    ensures
        hits.filter(|h: RuntimeCollisionHit| h.solid_collision).to_multiset().add(
            hits.filter(|h: RuntimeCollisionHit| !h.solid_collision).to_multiset(),
        ) == hits.to_multiset(),
    decreases hits.len(),
{
    broadcast use vstd::seq_lib::group_to_multiset_ensures;
    reveal(Seq::filter);
    if hits.len() == 0 {
        assert(hits.filter(|h: RuntimeCollisionHit| h.solid_collision) =~= Seq::<RuntimeCollisionHit>::empty());
        assert(hits.filter(|h: RuntimeCollisionHit| !h.solid_collision) =~= Seq::<RuntimeCollisionHit>::empty());
        assert(hits.to_multiset() =~= vstd::multiset::Multiset::empty());
    } else {
        let rest = hits.drop_last();
        lemma_filter_partition(rest);
        assert(hits =~= rest.push(hits.last()));
        vstd::seq_lib::to_multiset_build(rest, hits.last());
        let sr = rest.filter(|h: RuntimeCollisionHit| h.solid_collision);
        let or = rest.filter(|h: RuntimeCollisionHit| !h.solid_collision);
        if hits.last().solid_collision {
            vstd::seq_lib::to_multiset_build(sr, hits.last());
            assert(sr.push(hits.last()).to_multiset().add(or.to_multiset()) =~= sr.to_multiset().add(or.to_multiset()).insert(hits.last()));
        } else {
            vstd::seq_lib::to_multiset_build(or, hits.last());
            assert(sr.to_multiset().add(or.push(hits.last()).to_multiset()) =~= sr.to_multiset().add(or.to_multiset()).insert(hits.last()));
        }
    }
}

/// Whether a collision is traced: once a trace of this hit has started every
/// phase is; else only where a player candidate takes part, the collision is
/// solid or involves a hazard, and either instance is rising (`rising`) or a
/// hazard is involved.
pub open spec fn spec_trace_collision(
    trace_started: bool,
    player_involved: bool,
    solid_collision: bool,
    hazard_involved: bool,
    rising: bool,
) -> bool {
    trace_started || (player_involved && (solid_collision || hazard_involved) && (rising || hazard_involved))
}

/// Whether a collision is traced (see [`spec_trace_collision`]);
/// `player_involved` is whether either instance is a player candidate,
/// `hazard_involved` whether either is a hazard, `rising` whether either
/// moves up.
pub fn trace_collision(
    trace_started: bool,
    player_involved: bool,
    solid_collision: bool,
    hazard_involved: bool,
    rising: bool,
) -> (r: bool)
    ensures
        r == spec_trace_collision(trace_started, player_involved, solid_collision, hazard_involved, rising),
{
    if !trace_started && !(player_involved && (solid_collision || hazard_involved) && (rising || hazard_involved)) {
        return false;
    }
    true
}

/// Where the handling of one hit is.
#[derive(Clone, Copy, Debug, PartialEq, Eq)]
pub enum CollisionHitStage {
    Start,
    AfterResponse,
    AfterEvent,
    AfterDeathCheck,
    AfterReapply,
    AfterResolve,
    Finished,
}

/// The next piece of work in handling one hit.
#[derive(Clone, Copy, Debug, PartialEq, Eq)]
pub enum CollisionAction {
    /// Apply the hit's response (see [`collision_response`]): roll both
    /// back, land the instance, or leave them.
    ApplyResponse,
    /// Run the instance's collision event with the other instance.
    RunCollisionEvent,
    /// Warn that the player died on a hazard in its collision event.
    RecordHazardDeath,
    /// Move each of the two that is alive by its speed again.
    ReapplySpeeds,
    /// Undo what of the move still overlaps (see
    /// [`crate::helpers::final_solid_overlap_resolution`]).
    ResolveFinalOverlap,
    /// Record the hit's collision trace.
    FlushTrace,
    Done,
}

/// What was observed after the last action of a hit: its response (read at
/// the start), whether the other instance was a hazard before the event and
/// the instance is a player candidate that the event killed, whether either
/// instance is solid now, and whether both are alive and still overlap after
/// the speeds were applied again.
#[derive(Clone, Copy, Debug, PartialEq, Eq)]
pub struct CollisionObservation {
    pub response: CollisionResponse,
    pub hazard_death: bool,
    pub solid_now: bool,
    pub still_overlapping: bool,
}

/// The next stage and action of the handling of a hit: a stale hit is
/// skipped; else the response is applied, the collision event runs, a death
/// on a hazard is reported, and for a solid collision the speeds are applied
/// again and what still overlaps is undone; the trace is recorded last.
pub open spec fn spec_next_collision_step(stage: CollisionHitStage, seen: CollisionObservation) -> (
    CollisionHitStage,
    CollisionAction,
) {
    match stage {
        CollisionHitStage::Start => if seen.response == CollisionResponse::Skip {
            (CollisionHitStage::Finished, CollisionAction::Done)
        } else {
            (CollisionHitStage::AfterResponse, CollisionAction::ApplyResponse)
        },
        CollisionHitStage::AfterResponse => (CollisionHitStage::AfterEvent, CollisionAction::RunCollisionEvent),
        CollisionHitStage::AfterEvent => if seen.hazard_death {
            (CollisionHitStage::AfterDeathCheck, CollisionAction::RecordHazardDeath)
        } else {
            spec_after_death_check(seen)
        },
        CollisionHitStage::AfterDeathCheck => spec_after_death_check(seen),
        CollisionHitStage::AfterReapply => if seen.still_overlapping {
            (CollisionHitStage::AfterResolve, CollisionAction::ResolveFinalOverlap)
        } else {
            (CollisionHitStage::Finished, CollisionAction::FlushTrace)
        },
        CollisionHitStage::AfterResolve => (CollisionHitStage::Finished, CollisionAction::FlushTrace),
        CollisionHitStage::Finished => (CollisionHitStage::Finished, CollisionAction::Done),
    }
}

/// After the death check: a solid collision has its speeds applied again;
/// else the trace is recorded.
pub open spec fn spec_after_death_check(seen: CollisionObservation) -> (CollisionHitStage, CollisionAction) {
    if seen.solid_now {
        (CollisionHitStage::AfterReapply, CollisionAction::ReapplySpeeds)
    } else {
        (CollisionHitStage::Finished, CollisionAction::FlushTrace)
    }
}

/// The next stage and action of the handling of a hit (see
/// [`spec_next_collision_step`]).
pub fn next_collision_step(stage: CollisionHitStage, seen: CollisionObservation) -> (r: (
    CollisionHitStage,
    CollisionAction,
))
    ensures
        r == spec_next_collision_step(stage, seen),
{
    match stage {
        CollisionHitStage::Start => if matches!(seen.response, CollisionResponse::Skip) {
            (CollisionHitStage::Finished, CollisionAction::Done)
        } else {
            (CollisionHitStage::AfterResponse, CollisionAction::ApplyResponse)
        },
        CollisionHitStage::AfterResponse => (CollisionHitStage::AfterEvent, CollisionAction::RunCollisionEvent),
        CollisionHitStage::AfterEvent => if seen.hazard_death {
            (CollisionHitStage::AfterDeathCheck, CollisionAction::RecordHazardDeath)
        } else if seen.solid_now {
            (CollisionHitStage::AfterReapply, CollisionAction::ReapplySpeeds)
        } else {
            (CollisionHitStage::Finished, CollisionAction::FlushTrace)
        },
        CollisionHitStage::AfterDeathCheck => if seen.solid_now {
            (CollisionHitStage::AfterReapply, CollisionAction::ReapplySpeeds)
        } else {
            (CollisionHitStage::Finished, CollisionAction::FlushTrace)
        },
        CollisionHitStage::AfterReapply => if seen.still_overlapping {
            (CollisionHitStage::AfterResolve, CollisionAction::ResolveFinalOverlap)
        } else {
            (CollisionHitStage::Finished, CollisionAction::FlushTrace)
        },
        CollisionHitStage::AfterResolve => (CollisionHitStage::Finished, CollisionAction::FlushTrace),
        CollisionHitStage::Finished => (CollisionHitStage::Finished, CollisionAction::Done),
    }
}

/// The player died on a hazard in its collision event: the other instance
/// was a hazard before the event, and the instance is a player candidate the
/// event left dead.
pub open spec fn spec_hazard_death(other_was_hazard: bool, player_candidate: bool, alive_after: bool) -> bool {
    other_was_hazard && player_candidate && !alive_after
}

/// Whether the player died on a hazard in its collision event (see
/// [`spec_hazard_death`]).
pub fn hazard_death(other_was_hazard: bool, player_candidate: bool, alive_after: bool) -> (r: bool)
    ensures
        r == spec_hazard_death(other_was_hazard, player_candidate, alive_after),
{
    other_was_hazard && player_candidate && !alive_after
}

/// Handling a hit moves toward its end: only a stale hit is skipped without
/// its event, the event runs right after the response, a final overlap is
/// resolved only after speeds were applied again, and every handled hit ends
/// by recording its trace.
pub proof fn law_collision_hits_run_their_event(stage: CollisionHitStage, seen: CollisionObservation)
    ensures
        stage == CollisionHitStage::Start ==> (spec_next_collision_step(stage, seen).1 == CollisionAction::Done
            <==> seen.response == CollisionResponse::Skip),
        stage == CollisionHitStage::AfterResponse ==> spec_next_collision_step(stage, seen).1
            == CollisionAction::RunCollisionEvent,
        spec_next_collision_step(stage, seen).1 == CollisionAction::ResolveFinalOverlap ==> stage
            == CollisionHitStage::AfterReapply && seen.still_overlapping,
        stage != CollisionHitStage::Start && stage != CollisionHitStage::Finished && spec_next_collision_step(
            stage,
            seen,
        ).0 == CollisionHitStage::Finished ==> spec_next_collision_step(stage, seen).1 == CollisionAction::FlushTrace,
{
}

/// A hit that is still live when its turn comes (indices in the room, both
/// instances alive, and a landing row or an overlap) is never skipped; a
/// solid one is always rolled back, whatever its landing row; a landing
/// happens only for a collision that is not solid, at the hit's own row;
/// and a hit with no landing row is never a landing.
pub proof fn law_solid_hits_roll_back(
    hit: RuntimeCollisionHit,
    room_len: usize,
    instance_alive: bool,
    other_alive: bool,
    still_overlapping: bool,
    solid_now: bool,
)
    ensures
        ({
            let r = spec_collision_response(hit, room_len, instance_alive, other_alive, still_overlapping, solid_now);
            let live = hit.instance_idx < room_len && hit.other_idx < room_len && instance_alive && other_alive && (
            hit.contact_y is Some || still_overlapping);
            &&& live <==> r != CollisionResponse::Skip
            &&& live && solid_now ==> r == CollisionResponse::Rollback
            &&& r == CollisionResponse::Rollback ==> solid_now
            &&& (r matches CollisionResponse::Land { contact_y } ==> !solid_now && hit.contact_y == Some(contact_y))
            &&& live && !solid_now && hit.contact_y is Some ==> r == (CollisionResponse::Land {
                contact_y: hit.contact_y->0,
            })
            &&& r == CollisionResponse::Touch ==> !solid_now && hit.contact_y is None
        }),
{
}

proof fn lemma_target_queries_sound(i: usize, targets: Seq<usize>, matching_by_target: Map<usize, Vec<usize>>, q: (usize, usize, usize))
    requires
        spec_target_queries(i, targets, matching_by_target).contains(q),
    ensures
        q.0 == i && targets.contains(q.1) && matching_by_target.contains_key(q.1) && matching_by_target[q.1]@.contains(
            q.2,
        ),
    decreases targets.len(),
{
    let rest = spec_target_queries(i, targets.drop_last(), matching_by_target);
    let t = targets.last();
    let full = spec_target_queries(i, targets, matching_by_target);
    let p = choose|p: int| 0 <= p < full.len() && full[p] == q;
    if matching_by_target.contains_key(t) {
        let m = spec_matching_queries(i, t, matching_by_target[t]@);
        assert(full == rest + m);
        if p < rest.len() {
            assert(rest[p] == q);
            lemma_target_queries_sound(i, targets.drop_last(), matching_by_target, q);
            let r = choose|r: int| 0 <= r < targets.drop_last().len() && targets.drop_last()[r] == q.1;
            assert(targets[r] == q.1);
        } else {
            assert(m[p - rest.len()] == q);
            assert(matching_by_target[t]@[p - rest.len()] == q.2);
            assert(targets[targets.len() - 1] == t);
        }
    } else {
        assert(full == rest);
        lemma_target_queries_sound(i, targets.drop_last(), matching_by_target, q);
        let r = choose|r: int| 0 <= r < targets.drop_last().len() && targets.drop_last()[r] == q.1;
        assert(targets[r] == q.1);
    }
}

/// Every query of a collision pass is sound: it is for an alive instance of
/// the room, for an object that instance's object has a collision event
/// with, and for an object that matches that target.
pub proof fn law_collision_queries_are_sound<N>(
    instances: Seq<RuntimeInstance<N>>,
    targets_by_object: Map<usize, Vec<usize>>,
    matching_by_target: Map<usize, Vec<usize>>,
    k: int,
    q: (usize, usize, usize),
)
    requires
        0 <= k <= instances.len(),
        instances.len() <= usize::MAX,
        spec_collision_queries(instances, targets_by_object, matching_by_target, k).contains(q),
    ensures
        q.0 < k,
        instances[q.0 as int].alive,
        targets_by_object.contains_key(instances[q.0 as int].object_id),
        targets_by_object[instances[q.0 as int].object_id]@.contains(q.1),
        matching_by_target.contains_key(q.1),
        matching_by_target[q.1]@.contains(q.2),
    decreases k,
{
    let rest = spec_collision_queries(instances, targets_by_object, matching_by_target, k - 1);
    let full = spec_collision_queries(instances, targets_by_object, matching_by_target, k);
    let p = choose|p: int| 0 <= p < full.len() && full[p] == q;
    let inst = instances[k - 1];
    if inst.alive && targets_by_object.contains_key(inst.object_id) {
        let t = spec_target_queries((k - 1) as usize, targets_by_object[inst.object_id]@, matching_by_target);
        assert(full == rest + t);
        if p < rest.len() {
            assert(rest[p] == q);
            law_collision_queries_are_sound(instances, targets_by_object, matching_by_target, k - 1, q);
        } else {
            assert(t[p - rest.len()] == q);
            lemma_target_queries_sound((k - 1) as usize, targets_by_object[inst.object_id]@, matching_by_target, q);
        }
    } else {
        assert(full == rest);
        law_collision_queries_are_sound(instances, targets_by_object, matching_by_target, k - 1, q);
    }
}

} // verus!
