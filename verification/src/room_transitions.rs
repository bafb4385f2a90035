//! Carrying persistent instances into the room a transition enters, and
//! keeping every instance's runtime id equal to its place in the room.

use vstd::prelude::*;

use crate::helpers::{is_player_instance, spec_is_player_instance};
use crate::model::{RuntimeInstance, RuntimeRoomState};

verus! {

/// `instance` with runtime id `id`.
pub open spec fn spec_with_runtime_id<N>(instance: RuntimeInstance<N>, id: usize) -> RuntimeInstance<N> {
    RuntimeInstance { runtime_id: id, ..instance }
}

/// The instances with each runtime id set to the instance's position.
pub open spec fn spec_renumbered<N>(instances: Seq<RuntimeInstance<N>>) -> Seq<RuntimeInstance<N>> {
    Seq::new(instances.len(), |i: int| spec_with_runtime_id(instances[i], i as usize))
}

/// Every instance's runtime id is its position.
pub open spec fn spec_ids_are_positions<N>(instances: Seq<RuntimeInstance<N>>) -> bool {
    forall|i: int| 0 <= i < instances.len() ==> (#[trigger] instances[i]).runtime_id == i
}

/// `a` and `b` are the same room but for their instances.
pub open spec fn spec_same_room_but_instances<N>(a: RuntimeRoomState<N>, b: RuntimeRoomState<N>) -> bool {
    &&& a.room_id == b.room_id
    &&& a.room_name == b.room_name
    &&& a.width == b.width
    &&& a.height == b.height
    &&& a.speed == b.speed
    &&& a.playable == b.playable
    &&& a.spawn_point == b.spawn_point
    &&& a.views_enabled == b.views_enabled
    &&& a.views == b.views
}

/// Sets each instance's runtime id to its position in the room.
pub fn renumber_runtime_ids<N>(room: &mut RuntimeRoomState<N>)
    ensures
        final(room).instances@ == spec_renumbered(old(room).instances@),
        spec_same_room_but_instances(*old(room), *final(room)),
{
    let ghost start = room.instances@;
    let mut reversed: Vec<RuntimeInstance<N>> = Vec::new();
    while room.instances.len() > 0
        invariant
            start == room.instances@ + reversed@.reverse(),
            spec_same_room_but_instances(*old(room), *room),
        decreases room.instances@.len(),
    {
        let instance = room.instances.pop().unwrap();
        let ghost before = reversed@;
        reversed.push(instance);
        assert(reversed@.reverse() =~= seq![instance] + before.reverse());
    }
    assert(start =~= reversed@.reverse());
    let n = reversed.len();
    while reversed.len() > 0
        invariant
            n == start.len(),
            reversed@.len() <= n,
            room.instances@.len() == n - reversed@.len(),
            start.skip(n - reversed@.len()) == reversed@.reverse(),
            room.instances@ == spec_renumbered(start).take(n - reversed@.len()),
            spec_same_room_but_instances(*old(room), *room),
        decreases reversed@.len(),
    {
        let ghost k = n - reversed@.len();
        let ghost before = reversed@;
        let mut instance = reversed.pop().unwrap();
        proof {
            assert(before.reverse()[0] == before.last());
            assert(start.skip(k)[0] == start[k]);
            assert(start.skip(k + 1) =~= before.reverse().skip(1));
            assert(reversed@.reverse() =~= before.reverse().skip(1));
        }
        instance.runtime_id = room.instances.len();
        room.instances.push(instance);
        assert(room.instances@ =~= spec_renumbered(start).take(k + 1));
    }
    assert(room.instances@ =~= spec_renumbered(start));
}

/// Whether an incoming persistent instance takes the place of a room
/// instance: they share an instance id, or both are live players of the same
/// object.
pub open spec fn spec_replaces<N>(incoming: RuntimeInstance<N>, candidate: RuntimeInstance<N>) -> bool {
    ||| incoming.instance_id == candidate.instance_id
    ||| (spec_is_player_instance(incoming) && spec_is_player_instance(candidate) && incoming.object_id
        == candidate.object_id)
}

/// Whether `incoming` takes the place of `candidate` (see [`spec_replaces`]).
pub fn persistent_instance_replaces_room_instance<N>(incoming: &RuntimeInstance<N>, candidate: &RuntimeInstance<N>) -> (r: bool)
    ensures
        r == spec_replaces(*incoming, *candidate),
{
    incoming.instance_id == candidate.instance_id || (is_player_instance(incoming) && is_player_instance(candidate)
        && incoming.object_id == candidate.object_id)
}

/// The instances that `incoming` does not replace, in order.
pub open spec fn spec_not_replaced<N>(instances: Seq<RuntimeInstance<N>>, incoming: RuntimeInstance<N>) -> Seq<
    RuntimeInstance<N>,
>
    decreases instances.len(),
{
    if instances.len() == 0 {
        Seq::empty()
    } else {
        let rest = spec_not_replaced(instances.drop_last(), incoming);
        if spec_replaces(incoming, instances.last()) {
            rest
        } else {
            rest.push(instances.last())
        }
    }
}

/// The room's instances after the persistent instances `incoming` arrive, one
/// after the other: each drops the instances it replaces, the rest are
/// renumbered, and it joins at the end with the next runtime id.
pub open spec fn spec_add_persistent<N>(instances: Seq<RuntimeInstance<N>>, incoming: Seq<RuntimeInstance<N>>) -> Seq<
    RuntimeInstance<N>,
>
    decreases incoming.len(),
{
    if incoming.len() == 0 {
        instances
    } else {
        let before = spec_add_persistent(instances, incoming.drop_last());
        let kept = spec_renumbered(spec_not_replaced(before, incoming.last()));
        kept.push(spec_with_runtime_id(incoming.last(), kept.len() as usize))
    }
}

/// Drops the instances `incoming` replaces, keeping the order of the rest.
fn drop_replaced<N>(instances: &mut Vec<RuntimeInstance<N>>, incoming: &RuntimeInstance<N>)
    ensures
        final(instances)@ == spec_not_replaced(old(instances)@, *incoming),
{
    let ghost start = instances@;
    let ghost mut read: int = 0;
    let mut write: usize = 0;
    assert(start.skip(0) =~= start);
    while write < instances.len()
        invariant
            0 <= write <= read <= start.len(),
            instances@.len() == start.len() - (read - write),
            instances@.take(write as int) == spec_not_replaced(start.take(read), *incoming),
            instances@.skip(write as int) == start.skip(read),
        decreases instances@.len() - write,
    {
        proof {
            assert(start.take(read + 1).drop_last() =~= start.take(read));
            assert(start.take(read + 1).last() == start[read]);
            assert(instances@[write as int] == instances@.skip(write as int)[0]);
            assert(start.skip(read)[0] == start[read]);
        }
        let ghost before = instances@;
        if persistent_instance_replaces_room_instance(incoming, &instances[write]) {
            let _ = instances.remove(write);
            proof {
                assert(instances@.take(write as int) =~= before.take(write as int));
                assert(instances@.skip(write as int) =~= before.skip(write as int).skip(1));
                assert(start.skip(read + 1) =~= start.skip(read).skip(1));
            }
        } else {
            proof {
                assert(instances@.take(write + 1) =~= instances@.take(write as int).push(start[read]));
                assert(instances@.skip(write + 1) =~= instances@.skip(write as int).skip(1));
                assert(start.skip(read + 1) =~= start.skip(read).skip(1));
            }
            write = write + 1;
        }
        proof {
            read = read + 1;
        }
    }
    proof {
        assert(start.take(start.len() as int) =~= start);
        assert(instances@ =~= instances@.take(write as int));
    }
}

/// Brings the persistent instances `instances` into `room`, in order (see
/// [`spec_add_persistent`]).
pub fn add_persistent_instances<N>(room: &mut RuntimeRoomState<N>, instances: Vec<RuntimeInstance<N>>)
    ensures
        final(room).instances@ == spec_add_persistent(old(room).instances@, instances@),
        spec_same_room_but_instances(*old(room), *final(room)),
{
    let ghost all = instances@;
    let ghost start = room.instances@;
    let mut rest = instances;
    let mut pending: Vec<RuntimeInstance<N>> = Vec::new();
    while rest.len() > 0
        invariant
            all == rest@ + pending@.reverse(),
        decreases rest@.len(),
    {
        let instance = rest.pop().unwrap();
        let ghost before = pending@;
        pending.push(instance);
        assert(pending@.reverse() =~= seq![instance] + before.reverse());
    }
    assert(all =~= pending@.reverse());
    let ghost n = all.len();
    assert(all.skip(0) =~= all);
    assert(all.take(0) =~= Seq::<RuntimeInstance<N>>::empty());
    while pending.len() > 0
        invariant
            pending@.len() <= n,
            all.len() == n,
            all.skip(n - pending@.len()) == pending@.reverse(),
            room.instances@ == spec_add_persistent(start, all.take(n - pending@.len())),
            spec_same_room_but_instances(*old(room), *room),
        decreases pending@.len(),
    {
        let ghost k = n - pending@.len();
        let ghost before = pending@;
        let mut instance = pending.pop().unwrap();
        proof {
            assert(before.reverse()[0] == before.last());
            assert(all.skip(k)[0] == all[k]);
            assert(all.take(k + 1).drop_last() =~= all.take(k));
            assert(all.skip(k + 1) =~= before.reverse().skip(1));
            assert(pending@.reverse() =~= before.reverse().skip(1));
        }
        drop_replaced(&mut room.instances, &instance);
        renumber_runtime_ids(room);
        instance.runtime_id = room.instances.len();
        room.instances.push(instance);
    }
    assert(all.take(n as int) =~= all);
}

/// The alive persistent instances of `instances`, in order.
pub open spec fn spec_persistent_instances<N>(instances: Seq<RuntimeInstance<N>>) -> Seq<RuntimeInstance<N>>
    decreases instances.len(),
{
    if instances.len() == 0 {
        Seq::empty()
    } else {
        let rest = spec_persistent_instances(instances.drop_last());
        if instances.last().alive && instances.last().persistent {
            rest.push(instances.last())
        } else {
            rest
        }
    }
}

/// Clones of the alive persistent instances of the current room, in order,
/// which a room transition carries into the next room; none where no room is
/// loaded.
pub fn persistent_instances_for_room_transition<N: Clone>(current_room: &Option<RuntimeRoomState<N>>) -> (r: Vec<
    RuntimeInstance<N>,
>)
    ensures
        current_room is None ==> r@.len() == 0,
        current_room matches Some(room) ==> {
            &&& r@.len() == spec_persistent_instances(room.instances@).len()
            &&& forall|i: int| 0 <= i < r@.len() ==> cloned(spec_persistent_instances(room.instances@)[i], #[trigger] r@[i])
        },
{
    let mut out: Vec<RuntimeInstance<N>> = Vec::new();
    match current_room {
        None => out,
        Some(room) => {
            let ghost all = room.instances@;
            let mut i: usize = 0;
            assert(all.take(0) =~= Seq::<RuntimeInstance<N>>::empty());
            while i < room.instances.len()
                invariant
                    i <= all.len(),
                    all == room.instances@,
                    out@.len() == spec_persistent_instances(all.take(i as int)).len(),
                    forall|j: int| 0 <= j < out@.len() ==> cloned(spec_persistent_instances(all.take(i as int))[j], #[trigger] out@[j]),
                decreases all.len() - i,
            {
                proof {
                    assert(all.take(i + 1).drop_last() =~= all.take(i as int));
                    assert(all.take(i + 1).last() == all[i as int]);
                }
                let instance = &room.instances[i];
                if instance.alive && instance.persistent {
                    let copy = instance.clone();
                    out.push(copy);
                }
                i = i + 1;
            }
            assert(all.take(i as int) =~= all);
            out
        },
    }
}

/// After renumbering, every instance's runtime id is its position in the room.
pub proof fn law_renumbered_ids_are_positions<N>(instances: Seq<RuntimeInstance<N>>)
    requires
        instances.len() <= usize::MAX,
    ensures
        spec_ids_are_positions(spec_renumbered(instances)),
        spec_renumbered(instances).len() == instances.len(),
{
}

/// Keeping the instances an incoming one does not replace keeps a subsequence:
/// none of the kept is replaced, and there are no more than before.
pub proof fn lemma_not_replaced_kept<N>(instances: Seq<RuntimeInstance<N>>, incoming: RuntimeInstance<N>)
    ensures
        spec_not_replaced(instances, incoming).len() <= instances.len(),
        forall|i: int| 0 <= i < spec_not_replaced(instances, incoming).len()
            ==> !spec_replaces(incoming, #[trigger] spec_not_replaced(instances, incoming)[i]),
    decreases instances.len(),
{
    if instances.len() > 0 {
        lemma_not_replaced_kept(instances.drop_last(), incoming);
    }
}

/// Once persistent instances have arrived, every instance's runtime id is its
/// position in the room; the last arrival is the room's last instance, and
/// no instance before it is one it replaces; the room grows by at most the
/// number of arrivals.
pub proof fn law_add_persistent_instances<N>(instances: Seq<RuntimeInstance<N>>, incoming: Seq<RuntimeInstance<N>>)
    requires
        incoming.len() > 0,
        instances.len() + incoming.len() <= usize::MAX,
    ensures
        ({
            let r = spec_add_persistent(instances, incoming);
            &&& spec_ids_are_positions(r)
            &&& r.len() > 0
            &&& r.last() == spec_with_runtime_id(incoming.last(), (r.len() - 1) as usize)
            &&& forall|i: int| 0 <= i < r.len() - 1 ==> !spec_replaces(incoming.last(), #[trigger] r[i])
            &&& r.len() <= instances.len() + incoming.len()
        }),
    decreases incoming.len(),
{
    let before = spec_add_persistent(instances, incoming.drop_last());
    if incoming.len() > 1 {
        law_add_persistent_instances(instances, incoming.drop_last());
    }
    assert(before.len() <= instances.len() + incoming.len() - 1);
    let kept = spec_not_replaced(before, incoming.last());
    lemma_not_replaced_kept(before, incoming.last());
    law_renumbered_ids_are_positions(kept);
    let r = spec_add_persistent(instances, incoming);
    assert forall|i: int| 0 <= i < r.len() - 1 implies !spec_replaces(incoming.last(), #[trigger] r[i]) by {
        assert(r[i] == spec_with_runtime_id(kept[i], i as usize));
        assert(!spec_replaces(incoming.last(), kept[i]));
    }
}

} // verus!
