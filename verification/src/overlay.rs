//! Sparse per-index instance updates, remembering which indices were written
//! and in what order.

use vstd::prelude::*;

use crate::instance_updates::spec_committed;

verus! {

/// `dirty` with each index of `incoming` that `held` contains and that is not
/// yet listed appended, in order.
pub open spec fn spec_appended_dirty(dirty: Seq<usize>, incoming: Seq<usize>, held: Set<usize>) -> Seq<usize>
    decreases incoming.len(),
{
    if incoming.len() == 0 {
        dirty
    } else {
        let d = spec_appended_dirty(dirty, incoming.drop_last(), held);
        let x = incoming.last();
        if held.contains(x) && !d.contains(x) {
            d.push(x)
        } else {
            d
        }
    }
}

/// The pairs of index and held instance, for the indices of `dirty` that `held`
/// holds, in the order of `dirty`.
pub open spec fn spec_drained<T>(dirty: Seq<usize>, held: Map<usize, T>) -> Seq<(usize, T)>
    decreases dirty.len(),
{
    if dirty.len() == 0 {
        Seq::empty()
    } else {
        let rest = spec_drained(dirty.drop_last(), held);
        let x = dirty.last();
        if held.contains_key(x) {
            rest.push((x, held[x]))
        } else {
            rest
        }
    }
}

/// Instances written at room indices, each index remembered once, in the order
/// it was first written since the last drain.
pub struct RuntimeSparseInstanceOverlay<T> {
    slots: Vec<Option<T>>,
    dirty_indices: Vec<usize>,
    dirty_marks: Vec<bool>,
}

impl<T: Clone> RuntimeSparseInstanceOverlay<T> {
    /// The instances held, by index.
    pub closed spec fn held(&self) -> Map<usize, T> {
        Map::new(
            |i: usize| i < self.slots@.len() && self.slots@[i as int] is Some,
            |i: usize| self.slots@[i as int]->Some_0,
        )
    }

    /// The written indices, in the order they were first written.
    pub closed spec fn dirty(&self) -> Seq<usize> {
        self.dirty_indices@
    }

    /// Number of index slots allocated.
    pub closed spec fn capacity(&self) -> nat {
        self.slots@.len()
    }

    /// The overlay's internal invariant: each written index is listed once and
    /// marked, and every held instance sits at a written index.
    pub closed spec fn wf(&self) -> bool {
        &&& self.slots@.len() == self.dirty_marks@.len()
        &&& forall|k: int| 0 <= k < self.dirty_indices@.len() ==> #[trigger] self.dirty_indices@[k] < self.slots@.len()
            && self.dirty_indices@[k] < usize::MAX
        &&& forall|k: int, l: int| 0 <= k < l < self.dirty_indices@.len() ==> self.dirty_indices@[k] != self.dirty_indices@[l]
        &&& forall|i: int| 0 <= i < self.dirty_marks@.len() ==> (#[trigger] self.dirty_marks@[i] <==> self.dirty_indices@.contains(i as usize))
        &&& forall|i: int| 0 <= i < self.slots@.len() && #[trigger] self.slots@[i] is Some ==> self.dirty_marks@[i]
    }

    /// An empty overlay.
    pub fn new() -> (r: Self)
        ensures
            r.wf(),
            r.held() == Map::<usize, T>::empty(),
            r.dirty() == Seq::<usize>::empty(),
    {
        let r = RuntimeSparseInstanceOverlay { slots: Vec::new(), dirty_indices: Vec::new(), dirty_marks: Vec::new() };
        assert(r.held() =~= Map::<usize, T>::empty());
        r
    }

    /// The instance held at `index`, if any.
    pub fn get(&self, index: usize) -> (r: Option<&T>)
        requires
            self.wf(),
        ensures
            match r {
                Some(t) => self.held().contains_key(index) && *t == self.held()[index],
                None => !self.held().contains_key(index),
            },
    {
        if index < self.slots.len() {
            match &self.slots[index] {
                Some(t) => Some(t),
                None => None,
            }
        } else {
            None
        }
    }

    /// Grows the slots so that `index` has one; nothing held changes.
    pub fn ensure_capacity(&mut self, index: usize)
        requires
            old(self).wf(),
            index < usize::MAX,
        ensures
            final(self).wf(),
            final(self).held() == old(self).held(),
            final(self).dirty() == old(self).dirty(),
            final(self).capacity() > index,
            final(self).capacity() >= old(self).capacity(),
    {
        let ghost old_held = self.held();
        if self.slots.len() > index {
            return;
        }
        while self.slots.len() <= index
            invariant
                index < usize::MAX,
                self.slots@.len() <= index + 1,
                self.slots@.len() >= old(self).slots@.len(),
                forall|i: int| 0 <= i < old(self).slots@.len() ==> self.slots@[i] == old(self).slots@[i],
                forall|i: int| old(self).slots@.len() <= i < self.slots@.len() ==> self.slots@[i] is None,
                self.dirty_marks@ == old(self).dirty_marks@,
                self.dirty_indices@ == old(self).dirty_indices@,
            decreases index + 1 - self.slots@.len(),
        {
            self.slots.push(None);
        }
        while self.dirty_marks.len() <= index
            invariant
                index < usize::MAX,
                self.slots@.len() == index + 1,
                self.dirty_marks@.len() <= index + 1,
                self.dirty_marks@.len() >= old(self).dirty_marks@.len(),
                forall|i: int| 0 <= i < old(self).slots@.len() ==> self.slots@[i] == old(self).slots@[i],
                forall|i: int| old(self).slots@.len() <= i < self.slots@.len() ==> self.slots@[i] is None,
                forall|i: int| 0 <= i < old(self).dirty_marks@.len() ==> self.dirty_marks@[i] == old(self).dirty_marks@[i],
                forall|i: int| old(self).dirty_marks@.len() <= i < self.dirty_marks@.len() ==> !self.dirty_marks@[i],
                self.dirty_indices@ == old(self).dirty_indices@,
            decreases index + 1 - self.dirty_marks@.len(),
        {
            self.dirty_marks.push(false);
        }
        assert(self.held() =~= old_held);
    }

    /// Holds `instance` at `index`, remembering `index` as written if it was not.
    pub fn set(&mut self, index: usize, instance: T)
        requires
            old(self).wf(),
            index < usize::MAX,
        ensures
            final(self).wf(),
            final(self).held() == old(self).held().insert(index, instance),
            final(self).dirty() == if old(self).dirty().contains(index) {
                old(self).dirty()
            } else {
                old(self).dirty().push(index)
            },
    {
        let ghost old_held = self.held();
        let ghost old_dirty = self.dirty_indices@;
        self.ensure_capacity(index);
        let ghost mid_dirty = self.dirty_indices@;
        let ghost mid_marks = self.dirty_marks@;
        if !self.dirty_marks[index] {
            self.dirty_marks.set(index, true);
            self.dirty_indices.push(index);
            assert(self.dirty_indices@ == mid_dirty.push(index));
            assert(!mid_dirty.contains(index));
            assert forall|k: int, l: int| 0 <= k < l < self.dirty_indices@.len() implies self.dirty_indices@[k] != self.dirty_indices@[l] by {
                if l == self.dirty_indices@.len() - 1 {
                    assert(mid_dirty[k] == self.dirty_indices@[k]);
                }
            }
            let marks_len = self.dirty_marks.len();
            assert forall|i: int| 0 <= i < self.dirty_marks@.len() implies (#[trigger] self.dirty_marks@[i] <==> self.dirty_indices@.contains(i as usize)) by {
                assert(i < marks_len);
                assert((i as usize) as int == i);
                assert(mid_marks[i] <==> mid_dirty.contains(i as usize));
                if mid_dirty.contains(i as usize) {
                    let k = choose|k: int| #![auto] 0 <= k < mid_dirty.len() && mid_dirty[k] == i as usize;
                    assert(self.dirty_indices@[k] == i as usize);
                }
                if self.dirty_indices@.contains(i as usize) && i != index {
                    let k = choose|k: int| #![auto] 0 <= k < self.dirty_indices@.len() && self.dirty_indices@[k] == i as usize;
                    assert(self.dirty_indices@[mid_dirty.len() as int] == index);
                    assert(k < mid_dirty.len());
                    assert(mid_dirty[k] == i as usize);
                }
                if i == index {
                    assert(self.dirty_indices@[mid_dirty.len() as int] == index);
                }
            }
        }
        self.slots.set(index, Some(instance));
        assert(self.held() =~= old_held.insert(index, instance));
    }

    /// Removes and returns the instance held at `index`; `index` stays written.
    pub fn take(&mut self, index: usize) -> (r: Option<T>)
        requires
            old(self).wf(),
        ensures
            final(self).wf(),
            r == (if old(self).held().contains_key(index) { Some(old(self).held()[index]) } else { None }),
            final(self).held() == old(self).held().remove(index),
            final(self).dirty() == old(self).dirty(),
    {
        let ghost old_held = self.held();
        if index < self.slots.len() {
            let r = self.slots[index].take();
            assert(self.held() =~= old_held.remove(index));
            r
        } else {
            assert(self.held() =~= old_held.remove(index));
            None
        }
    }

    /// Holds a clone of each instance `overlay` holds, at its index, taking the
    /// written indices of `overlay` in order.
    pub fn extend_from_overlay(&mut self, overlay: &Self)
        requires
            old(self).wf(),
            overlay.wf(),
        ensures
            final(self).wf(),
            forall|i: usize| #[trigger] final(self).held().contains_key(i) <==> (old(self).held().contains_key(i)
                || overlay.held().contains_key(i)),
            forall|i: usize| #[trigger] overlay.held().contains_key(i) ==> cloned(overlay.held()[i], final(self).held()[i]),
            forall|i: usize| #[trigger] old(self).held().contains_key(i) && !overlay.held().contains_key(i)
                ==> final(self).held()[i] == old(self).held()[i],
            final(self).dirty() == spec_appended_dirty(old(self).dirty(), overlay.dirty(), overlay.held().dom()),
    {
        let ghost start = self.held();
        let ghost start_dirty = self.dirty();
        let indices = overlay.dirty_indices();
        let mut k: usize = 0;
        while k < indices.len()
            invariant
                self.wf(),
                overlay.wf(),
                indices@ == overlay.dirty(),
                k <= indices@.len(),
                forall|i: usize| #[trigger] self.held().contains_key(i) <==> (start.contains_key(i) || (
                    overlay.held().contains_key(i) && indices@.take(k as int).contains(i))),
                forall|i: usize| #[trigger] overlay.held().contains_key(i) && indices@.take(k as int).contains(i)
                    ==> cloned(overlay.held()[i], self.held()[i]),
                forall|i: usize| #[trigger] start.contains_key(i) && !(overlay.held().contains_key(i)
                    && indices@.take(k as int).contains(i)) ==> self.held()[i] == start[i],
                self.dirty() == spec_appended_dirty(start_dirty, indices@.take(k as int), overlay.held().dom()),
            decreases indices@.len() - k,
        {
            let index = indices[k];
            assert(indices@.take(k + 1).drop_last() =~= indices@.take(k as int));
            assert(indices@.take(k + 1) =~= indices@.take(k as int).push(index));
            assert forall|i: usize| #[trigger] indices@.take(k + 1).contains(i) <==> (indices@.take(k as int).contains(i) || i == index) by {
                if indices@.take(k + 1).contains(i) && i != index {
                    let j = choose|j: int| 0 <= j < indices@.take(k + 1).len() && #[trigger] indices@.take(k + 1)[j] == i;
                    assert(indices@.take(k as int)[j] == i);
                }
                if indices@.take(k as int).contains(i) {
                    let j = choose|j: int| 0 <= j < indices@.take(k as int).len() && #[trigger] indices@.take(k as int)[j] == i;
                    assert(indices@.take(k + 1)[j] == i);
                }
                if i == index {
                    assert(indices@.take(k + 1)[k as int] == i);
                }
            }
            match overlay.get(index) {
                Some(instance) => {
                    let copy = instance.clone();
                    self.set(index, copy);
                },
                None => {},
            }
            k = k + 1;
        }
        assert(indices@.take(k as int) =~= indices@);
        assert forall|i: usize| #[trigger] overlay.held().contains_key(i) implies indices@.contains(i) by {
            assert(overlay.slots@[i as int] is Some);
            assert(overlay.dirty_marks@[i as int]);
        }
    }

    /// A fresh overlay holding a clone of each instance held here, with the
    /// held indices written in the order they were written here.
    pub fn snapshot(&self) -> (r: Self)
        requires
            self.wf(),
        ensures
            r.wf(),
            r.held().dom() == self.held().dom(),
            forall|i: usize| #[trigger] self.held().contains_key(i) ==> cloned(self.held()[i], r.held()[i]),
            r.dirty() == spec_appended_dirty(Seq::empty(), self.dirty(), self.held().dom()),
    {
        let mut snapshot = Self::new();
        snapshot.extend_from_overlay(self);
        assert(snapshot.held().dom() =~= self.held().dom());
        snapshot
    }

    /// Removes and returns every held instance with its index, in the order the
    /// indices were written; afterwards nothing is held or written.
    pub fn drain_dirty_updates(&mut self) -> (r: Vec<(usize, T)>)
        requires
            old(self).wf(),
        ensures
            final(self).wf(),
            r@ == spec_drained(old(self).dirty(), old(self).held()),
            final(self).held() == Map::<usize, T>::empty(),
            final(self).dirty() == Seq::<usize>::empty(),
    {
        let ghost start = self.held();
        let mut dirty: Vec<usize> = Vec::new();
        std::mem::swap(&mut dirty, &mut self.dirty_indices);
        assert(dirty@.skip(0) =~= dirty@);
        let mut updates: Vec<(usize, T)> = Vec::new();
        let mut k: usize = 0;
        while k < dirty.len()
            invariant
                k <= dirty@.len(),
                self.dirty_indices@ == Seq::<usize>::empty(),
                self.slots@.len() == self.dirty_marks@.len(),
                forall|j: int| 0 <= j < dirty@.len() ==> #[trigger] dirty@[j] < self.slots@.len(),
                forall|j: int, l: int| 0 <= j < l < dirty@.len() ==> dirty@[j] != dirty@[l],
                forall|i: int| 0 <= i < self.dirty_marks@.len() ==> (#[trigger] self.dirty_marks@[i] <==> dirty@.skip(k as int).contains(i as usize)),
                forall|i: int| 0 <= i < self.slots@.len() && #[trigger] self.slots@[i] is Some ==> dirty@.skip(k as int).contains(i as usize),
                forall|i: usize| #[trigger] self.held().contains_key(i) ==> start.contains_key(i) && self.held()[i] == start[i],
                forall|i: usize| #[trigger] start.contains_key(i) && dirty@.skip(k as int).contains(i) ==> self.held().contains_key(i),
                updates@ == spec_drained(dirty@.take(k as int), start),
            decreases dirty@.len() - k,
        {
            let index = dirty[k];
            let ghost cur_rest = dirty@.skip(k as int);
            let ghost next_rest = dirty@.skip(k + 1);
            assert(dirty@.take(k + 1).drop_last() =~= dirty@.take(k as int));
            assert(cur_rest =~= seq![index] + next_rest);
            assert(!next_rest.contains(index)) by {
                if next_rest.contains(index) {
                    let j = choose|j: int| 0 <= j < next_rest.len() && #[trigger] next_rest[j] == index;
                    assert(dirty@[k + 1 + j] == dirty@[k as int]);
                }
            }
            let ghost prev_held = self.held();
            assert(start.contains_key(index) <==> prev_held.contains_key(index)) by {
                assert(cur_rest[0] == index);
            }
            let taken = self.slots[index].take();
            assert(self.held() =~= prev_held.remove(index));
            match taken {
                Some(instance) => {
                    updates.push((index, instance));
                },
                None => {},
            }
            self.dirty_marks.set(index, false);
            let marks_len = self.dirty_marks.len();
            assert forall|i: int| 0 <= i < self.dirty_marks@.len() implies (#[trigger] self.dirty_marks@[i] <==> next_rest.contains(i as usize)) by {
                assert(i < marks_len);
                assert((i as usize) as int == i);
                if next_rest.contains(i as usize) {
                    let j = choose|j: int| 0 <= j < next_rest.len() && #[trigger] next_rest[j] == i as usize;
                    assert(cur_rest[j + 1] == i as usize);
                }
            }
            assert forall|i: int| 0 <= i < self.slots@.len() && #[trigger] self.slots@[i] is Some implies next_rest.contains(i as usize) by {
                assert(cur_rest.contains(i as usize));
                let j = choose|j: int| 0 <= j < cur_rest.len() && #[trigger] cur_rest[j] == i as usize;
                if j == 0 {
                    assert(i == index);
                } else {
                    assert(next_rest[j - 1] == i as usize);
                }
            }
            assert forall|i: usize| #[trigger] start.contains_key(i) && next_rest.contains(i) implies self.held().contains_key(i) by {
                let j = choose|j: int| 0 <= j < next_rest.len() && #[trigger] next_rest[j] == i;
                assert(cur_rest[j + 1] == i);
                assert(i != index);
            }
            k = k + 1;
        }
        assert(dirty@.take(k as int) =~= dirty@);
        assert(self.held() =~= Map::<usize, T>::empty()) by {
            assert forall|i: usize| !self.held().contains_key(i) by {
                if self.held().contains_key(i) {
                    assert(self.slots@[i as int] is Some);
                }
            }
        }
        updates
    }

    /// Drops every held instance and forgets every written index.
    pub fn clear_dirty(&mut self)
        requires
            old(self).wf(),
        ensures
            final(self).wf(),
            final(self).held() == Map::<usize, T>::empty(),
            final(self).dirty() == Seq::<usize>::empty(),
    {
        let _ = self.drain_dirty_updates();
    }

    /// The written indices, in the order they were first written.
    pub fn dirty_indices(&self) -> (r: &[usize])
        ensures
            r@ == self.dirty(),
    {
        self.dirty_indices.as_slice()
    }
}

// ----------------------------------------------------------------------------
// Laws of the overlay

/// Committing the drained updates of the written indices `dirty` writes the
/// held instances at those indices over `committed`.
proof fn lemma_commit_drained<T>(committed: Map<usize, T>, dirty: Seq<usize>, held: Map<usize, T>)
    ensures
        spec_committed(committed, spec_drained(dirty, held)) == committed.union_prefer_right(
            held.restrict(dirty.to_set()),
        ),
    decreases dirty.len(),
{
    if dirty.len() == 0 {
        assert(held.restrict(dirty.to_set()) =~= Map::<usize, T>::empty());
        assert(committed.union_prefer_right(Map::<usize, T>::empty()) =~= committed);
    } else {
        let x = dirty.last();
        let prev = dirty.drop_last();
        lemma_commit_drained(committed, prev, held);
        assert(dirty.to_set() =~= prev.to_set().insert(x)) by {
            assert forall|i: usize| dirty.to_set().contains(i) implies prev.to_set().insert(x).contains(i) by {
                let k = choose|k: int| 0 <= k < dirty.len() && dirty[k] == i;
                if k < dirty.len() - 1 {
                    assert(prev[k] == i);
                }
            }
            assert forall|i: usize| prev.to_set().insert(x).contains(i) implies dirty.to_set().contains(i) by {
                if i != x {
                    let k = choose|k: int| 0 <= k < prev.len() && prev[k] == i;
                    assert(dirty[k] == i);
                } else {
                    assert(dirty[dirty.len() - 1] == i);
                }
            }
        }
        let d = spec_drained(dirty, held);
        if held.contains_key(x) {
            assert(d.drop_last() =~= spec_drained(prev, held));
            assert(spec_committed(committed, d) =~= committed.union_prefer_right(held.restrict(dirty.to_set())));
        } else {
            assert(held.restrict(dirty.to_set()) =~= held.restrict(prev.to_set()));
        }
    }
}

/// Draining and committing writes back what the overlay holds: committing the
/// updates `drain_dirty_updates` returns over a map gives that map with every
/// instance the overlay held written at its index.
pub proof fn law_drain_then_commit<T: Clone>(overlay: RuntimeSparseInstanceOverlay<T>, committed: Map<usize, T>)
    requires
        overlay.wf(),
    ensures
        spec_committed(committed, spec_drained(overlay.dirty(), overlay.held())) == committed.union_prefer_right(
            overlay.held(),
        ),
{
    lemma_commit_drained(committed, overlay.dirty(), overlay.held());
    assert(overlay.held().restrict(overlay.dirty().to_set()) =~= overlay.held()) by {
        assert forall|i: usize| #[trigger] overlay.held().contains_key(i) implies overlay.dirty().to_set().contains(i) by {
            assert(overlay.dirty_marks@[i as int]);
            assert(overlay.dirty_indices@.contains(i));
        }
    }
}

} // verus!
