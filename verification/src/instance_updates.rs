//! Moving instance updates between the running instance, the updates pending
//! in an event, and the updates committed to a room.

use std::collections::HashMap;

use vstd::prelude::*;

use crate::context::{spec_last_update, RuntimeRoomInstanceOverlay};
use crate::overlay::RuntimeSparseInstanceOverlay;

verus! {

/// `updates` without those at `index`, in order.
pub open spec fn spec_without_index<T>(updates: Seq<(usize, T)>, index: usize) -> Seq<(usize, T)>
    decreases updates.len(),
{
    if updates.len() == 0 {
        Seq::empty()
    } else {
        let rest = spec_without_index(updates.drop_last(), index);
        if updates.last().0 == index {
            rest
        } else {
            rest.push(updates.last())
        }
    }
}

/// `committed` with each update of `updates` written over it in turn.
pub open spec fn spec_committed<T>(committed: Map<usize, T>, updates: Seq<(usize, T)>) -> Map<usize, T>
    decreases updates.len(),
{
    if updates.len() == 0 {
        committed
    } else {
        spec_committed(committed, updates.drop_last()).insert(updates.last().0, updates.last().1)
    }
}

/// Replaces the running instance with the update pending at its index, if
/// there is one, and takes that update out of `pending_updates`.
pub fn sync_instance_from_updates<T: Clone>(
    current_index: usize,
    current_instance: &mut T,
    pending_updates: &mut RuntimeSparseInstanceOverlay<T>,
)
    requires
        old(pending_updates).wf(),
    ensures
        final(pending_updates).wf(),
        final(pending_updates).held() == old(pending_updates).held().remove(current_index),
        final(pending_updates).dirty() == old(pending_updates).dirty(),
        *final(current_instance) == (if old(pending_updates).held().contains_key(current_index) {
            old(pending_updates).held()[current_index]
        } else {
            *old(current_instance)
        }),
{
    if let Some(instance) = pending_updates.take(current_index) {
        *current_instance = instance;
    }
}

/// Where `pending_updates` holds an update at `current_index`, replaces the
/// running instance with a clone of the last such update and drops every
/// update at that index; otherwise changes nothing.
pub fn sync_current_instance_from_updates<T: Clone>(
    current_index: usize,
    current_instance: &mut T,
    pending_updates: &mut Vec<(usize, T)>,
)
    ensures
        match spec_last_update(old(pending_updates)@, current_index) {
            Some(last) => {
                &&& cloned(last, *final(current_instance))
                &&& final(pending_updates)@ == spec_without_index(old(pending_updates)@, current_index)
            },
            None => {
                &&& *final(current_instance) == *old(current_instance)
                &&& final(pending_updates)@ == old(pending_updates)@
            },
        },
{
    let ghost start = pending_updates@;
    let mut position: Option<usize> = None;
    let mut i = pending_updates.len();
    assert(start.take(i as int) =~= start);
    while i > 0
        invariant_except_break
            position is None,
            spec_last_update(start, current_index) == spec_last_update(start.take(i as int), current_index),
        invariant
            pending_updates@ == start,
            i <= start.len(),
        ensures
            match position {
                Some(p) => p < start.len() && spec_last_update(start, current_index) == Some(start[p as int].1),
                None => spec_last_update(start, current_index) is None,
            },
        decreases i,
    {
        i = i - 1;
        proof {
            assert(start.take(i + 1).drop_last() =~= start.take(i as int));
        }
        if pending_updates[i].0 == current_index {
            assert(start.take(i + 1).last() == start[i as int]);
            position = Some(i);
            break;
        }
        if i == 0 {
            assert(start.take(0) =~= Seq::<(usize, T)>::empty());
        }
    }
    let last_update_index = match position {
        Some(p) => p,
        None => {
            return;
        },
    };
    *current_instance = pending_updates[last_update_index].1.clone();
    let ghost mut read: int = 0;
    let mut write: usize = 0;
    while write < pending_updates.len()
        invariant
            0 <= write <= read <= start.len(),
            pending_updates@.len() == start.len() - (read - write),
            pending_updates@.take(write as int) == spec_without_index(start.take(read), current_index),
            pending_updates@.skip(write as int) == start.skip(read),
        decreases pending_updates@.len() - write,
    {
        proof {
            assert(start.take(read + 1).drop_last() =~= start.take(read));
            assert(start.take(read + 1).last() == start[read]);
            assert(pending_updates@[write as int] == pending_updates@.skip(write as int)[0]);
            assert(start.skip(read)[0] == start[read]);
        }
        let ghost before = pending_updates@;
        if pending_updates[write].0 == current_index {
            let _ = pending_updates.remove(write);
            proof {
                assert(pending_updates@.take(write as int) =~= before.take(write as int));
                assert(pending_updates@.skip(write as int) =~= before.skip(write as int).skip(1));
                assert(start.skip(read + 1) =~= start.skip(read).skip(1));
            }
        } else {
            proof {
                assert(pending_updates@.take(write + 1) =~= pending_updates@.take(write as int).push(start[read]));
                assert(pending_updates@.skip(write + 1) =~= pending_updates@.skip(write as int).skip(1));
                assert(start.skip(read + 1) =~= start.skip(read).skip(1));
            }
            write = write + 1;
        }
        proof {
            read = read + 1;
        }
    }
    proof {
        assert(read == start.len());
        assert(start.take(start.len() as int) =~= start);
        assert(pending_updates@ =~= pending_updates@.take(write as int));
    }
}

/// Writes each update into `committed_updates` at its index, in order.
pub fn commit_instance_updates<T>(committed_updates: &mut HashMap<usize, T>, updates: Vec<(usize, T)>)
    ensures
        final(committed_updates)@ == spec_committed(old(committed_updates)@, updates@),
{
    broadcast use vstd::std_specs::hash::group_hash_axioms;
    let ghost start = committed_updates@;
    let ghost all = updates@;
    let mut rest = updates;
    let mut pending: Vec<(usize, T)> = Vec::new();
    // Reverse first, so that popping yields the updates oldest first.
    while rest.len() > 0
        invariant
            all == rest@ + pending@.reverse(),
        decreases rest@.len(),
    {
        let update = rest.pop().unwrap();
        let ghost before = pending@;
        pending.push(update);
        proof {
            assert(pending@.reverse() =~= seq![update] + before.reverse());
        }
    }
    assert(all =~= pending@.reverse());
    let ghost n = all.len();
    assert(all.skip(0) =~= all);
    while pending.len() > 0
        invariant
            pending@.len() <= n,
            all.len() == n,
            all.skip(n - pending@.len()) == pending@.reverse(),
            committed_updates@ == spec_committed(start, all.take(n - pending@.len())),
        decreases pending@.len(),
    {
        let ghost k = n - pending@.len();
        let ghost before = pending@;
        let (index, instance) = pending.pop().unwrap();
        proof {
            assert(before.reverse()[0] == before.last());
            assert(all.skip(k)[0] == all[k]);
            assert(all[k] == (index, instance));
            assert(all.take(k + 1).drop_last() =~= all.take(k));
            assert(all.skip(k + 1) =~= before.reverse().skip(1));
            assert(pending@.reverse() =~= before.reverse().skip(1));
        }
        committed_updates.insert(index, instance);
    }
    assert(all.take(n as int) =~= all);
}

// ----------------------------------------------------------------------------
// Laws of instance updates

/// Committing updates shows each index's last update: after
/// `commit_instance_updates`, an index holds its last update if it has one,
/// else what was committed before.
pub proof fn law_commit_shows_last_update<T>(committed: Map<usize, T>, updates: Seq<(usize, T)>, index: usize)
    ensures
        spec_committed(committed, updates).contains_key(index) == (spec_last_update(updates, index) is Some
            || committed.contains_key(index)),
        spec_committed(committed, updates).contains_key(index) ==> spec_committed(committed, updates)[index]
            == match spec_last_update(updates, index) {
            Some(v) => v,
            None => committed[index],
        },
    decreases updates.len(),
{
    if updates.len() > 0 {
        law_commit_shows_last_update(committed, updates.drop_last(), index);
    }
}

/// Syncing the running instance clears its index and no other: after
/// `sync_current_instance_from_updates` at `current_index`, no pending update
/// is at that index, and every other index has the same last update as before.
pub proof fn law_sync_clears_only_current_index<T>(updates: Seq<(usize, T)>, current_index: usize, other: usize)
    ensures
        spec_last_update(spec_without_index(updates, current_index), current_index) is None,
        other != current_index ==> spec_last_update(spec_without_index(updates, current_index), other)
            == spec_last_update(updates, other),
    decreases updates.len(),
{
    if updates.len() > 0 {
        law_sync_clears_only_current_index(updates.drop_last(), current_index, other);
        let rest = spec_without_index(updates.drop_last(), current_index);
        if updates.last().0 != current_index {
            assert(rest.push(updates.last()).drop_last() =~= rest);
        }
    }
}

/// An overlay with no running instance shows at each index what committing
/// its pending updates over its committed ones would hold there, and the
/// fallback where neither has the index.
pub proof fn law_overlay_matches_commit<'a, T: Clone>(
    overlay: RuntimeRoomInstanceOverlay<'a, T>,
    index: usize,
    fallback: T,
)
    requires
        overlay.current() is None,
    ensures
        ({
            let m = match overlay.committed() {
                Some(m) => m,
                None => Map::empty(),
            };
            let c = spec_committed(m, overlay.pending());
            overlay.spec_instance_at(index, fallback) == if c.contains_key(index) { c[index] } else { fallback }
        }),
{
    let m = match overlay.committed() {
        Some(m) => m,
        None => Map::empty(),
    };
    law_commit_shows_last_update(m, overlay.pending(), index);
}

} // verus!
