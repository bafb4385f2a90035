//! What expression evaluation sees of the room: its instances through the
//! overlay of pending updates, the instance an event runs against, and the
//! order of rooms.

use std::collections::HashMap;

use vstd::prelude::*;
use vstd::hash_map::StringHashMap;

use crate::context::RuntimeRoomInstanceOverlay;
use crate::model::RuntimeInstance;
use crate::spatial_index::{
    spec_add_unique, spec_candidates_from, spec_valid_bounds, Bounds, RuntimeCollisionSpatialIndex,
};
use crate::event_dispatch::spec_cells_for_bounds;

verus! {

/// The room as expression evaluation sees it.
pub struct RuntimeEvalContext<'a, N> {
    pub current_room_id: usize,
    pub room_instances: &'a [RuntimeInstance<N>],
    pub room_instance_indices_by_object_id: &'a HashMap<usize, Vec<usize>>,
    pub collision_spatial_index: Option<&'a RuntimeCollisionSpatialIndex>,
    pub room_instance_overlay: RuntimeRoomInstanceOverlay<'a, RuntimeInstance<N>>,
    pub room_order: &'a [usize],
    pub other_instance: Option<&'a RuntimeInstance<N>>,
    pub other_runtime_id: Option<usize>,
    pub place_target_ids_by_name: &'a StringHashMap<Vec<usize>>,
    pub room_ids_by_name: &'a StringHashMap<usize>,
}

/// The positions of the instances whose object is one of `targets`, in order.
pub open spec fn spec_positions_of_objects<N>(instances: Seq<RuntimeInstance<N>>, targets: Seq<usize>) -> Seq<usize>
    decreases instances.len(),
{
    if instances.len() == 0 {
        Seq::empty()
    } else {
        let rest = spec_positions_of_objects(instances.drop_last(), targets);
        if targets.contains(instances.last().object_id) {
            rest.push((instances.len() - 1) as usize)
        } else {
            rest
        }
    }
}

/// The indices the index lists of `targets` hold, in the order of `targets`;
/// a target without a list adds nothing.
pub open spec fn spec_indexed_positions(by_object: Map<usize, Vec<usize>>, targets: Seq<usize>) -> Seq<usize>
    decreases targets.len(),
{
    if targets.len() == 0 {
        Seq::empty()
    } else {
        let rest = spec_indexed_positions(by_object, targets.drop_last());
        if by_object.contains_key(targets.last()) {
            rest + by_object[targets.last()]@
        } else {
            rest
        }
    }
}

impl<'a, N: Clone> RuntimeEvalContext<'a, N> {
    /// The room's instance at `index` as evaluation sees it: through the
    /// overlay within the room's list; past it, only the running instance.
    pub open spec fn spec_room_instance(&self, index: usize) -> Option<RuntimeInstance<N>> {
        if index < self.room_instances@.len() {
            Some(self.room_instance_overlay.spec_instance_at(index, self.room_instances@[index as int]))
        } else {
            match self.room_instance_overlay.current() {
                Some((ci, inst)) if ci >= self.room_instances@.len() && ci == index => Some(inst),
                _ => None,
            }
        }
    }

    /// Every instance evaluation sees, with its index: the room's list through
    /// the overlay, then the running instance where it lies past that list.
    pub open spec fn spec_room_instances(&self) -> Seq<(usize, RuntimeInstance<N>)> {
        let base = Seq::new(
            self.room_instances@.len(),
            |i: int| (i as usize, self.room_instance_overlay.spec_instance_at(i as usize, self.room_instances@[i])),
        );
        match self.room_instance_overlay.current() {
            Some((ci, inst)) if ci >= self.room_instances@.len() => base.push((ci, inst)),
            _ => base,
        }
    }

    /// The runtime id of the other instance of a collision or `with`, if any.
    pub open spec fn spec_other_runtime_id(&self) -> Option<usize> {
        match self.other_runtime_id {
            Some(id) => Some(id),
            None => match self.other_instance {
                Some(inst) => Some(inst.runtime_id),
                None => None,
            },
        }
    }

    /// The positions of the room's instances whose object is one of `targets`:
    /// from the index by object where it has entries, else by scanning the
    /// room's list.
    pub open spec fn spec_indices_matching(&self, targets: Seq<usize>) -> Seq<usize> {
        if self.room_instance_indices_by_object_id@.is_empty() {
            spec_positions_of_objects(self.room_instances@, targets)
        } else {
            spec_indexed_positions(self.room_instance_indices_by_object_id@, targets)
        }
    }
}

impl<'a, N: Clone> RuntimeEvalContext<'a, N> {
    /// This context with `other_instance` as the other instance and
    /// `room_instance_overlay` as the overlay.
    pub fn with_other_and_overlay<'b>(
        &'b self,
        other_instance: &'b RuntimeInstance<N>,
        room_instance_overlay: RuntimeRoomInstanceOverlay<'b, RuntimeInstance<N>>,
    ) -> (r: RuntimeEvalContext<'b, N>)
        where 'a: 'b
        ensures
            r.current_room_id == self.current_room_id,
            r.room_instances@ == self.room_instances@,
            r.room_instance_indices_by_object_id@ == self.room_instance_indices_by_object_id@,
            r.collision_spatial_index == self.collision_spatial_index,
            r.room_instance_overlay == room_instance_overlay,
            r.room_order@ == self.room_order@,
            r.other_instance == Some(other_instance),
            r.other_runtime_id == Some(other_instance.runtime_id),
            r.place_target_ids_by_name@ == self.place_target_ids_by_name@,
            r.room_ids_by_name@ == self.room_ids_by_name@,
    {
        RuntimeEvalContext {
            current_room_id: self.current_room_id,
            room_instances: self.room_instances,
            room_instance_indices_by_object_id: self.room_instance_indices_by_object_id,
            collision_spatial_index: self.collision_spatial_index,
            room_instance_overlay,
            room_order: self.room_order,
            other_instance: Some(other_instance),
            other_runtime_id: Some(other_instance.runtime_id),
            place_target_ids_by_name: self.place_target_ids_by_name,
            room_ids_by_name: self.room_ids_by_name,
        }
    }

    /// The room's instance at `index` as evaluation sees it (see
    /// [`Self::spec_room_instance`]).
    pub fn room_instance(&self, index: usize) -> (r: Option<&RuntimeInstance<N>>)
        ensures
            match r {
                Some(inst) => self.spec_room_instance(index) == Some(*inst),
                None => self.spec_room_instance(index) is None,
            },
    {
        if index < self.room_instances.len() {
            return Some(self.room_instance_overlay.instance_at(index, &self.room_instances[index]));
        }
        match self.room_instance_overlay.extra_current_instance(self.room_instances.len()) {
            Some((extra_index, instance)) => {
                if extra_index == index {
                    Some(instance)
                } else {
                    None
                }
            },
            None => None,
        }
    }

    /// Every instance evaluation sees, with its index (see
    /// [`Self::spec_room_instances`]).
    pub fn room_instances_iter(&self) -> (r: Vec<(usize, &RuntimeInstance<N>)>)
        ensures
            r@.len() == self.spec_room_instances().len(),
            forall|i: int| 0 <= i < r@.len() ==> (#[trigger] r@[i]).0 == self.spec_room_instances()[i].0 && *r@[i].1
                == self.spec_room_instances()[i].1,
    {
        let mut out: Vec<(usize, &RuntimeInstance<N>)> = Vec::new();
        let mut i: usize = 0;
        while i < self.room_instances.len()
            invariant
                i <= self.room_instances@.len(),
                out@.len() == i,
                forall|j: int| 0 <= j < i ==> (#[trigger] out@[j]).0 == j && *out@[j].1
                    == self.room_instance_overlay.spec_instance_at(j as usize, self.room_instances@[j]),
            decreases self.room_instances@.len() - i,
        {
            out.push((i, self.room_instance_overlay.instance_at(i, &self.room_instances[i])));
            i = i + 1;
        }
        match self.room_instance_overlay.extra_current_instance(self.room_instances.len()) {
            Some((index, instance)) => {
                out.push((index, instance));
            },
            None => {},
        }
        out
    }

    /// The instance the running code calls `other`: the instance evaluation
    /// sees with the other instance's runtime id, the first such.
    pub fn other_instance(&self) -> (r: Option<&RuntimeInstance<N>>)
        ensures
            match self.spec_other_runtime_id() {
                None => r is None,
                Some(id) => match r {
                    Some(inst) => exists|k: int|
                        0 <= k < self.spec_room_instances().len() && self.spec_room_instances()[k].1 == *inst
                            && inst.runtime_id == id && forall|j: int|
                            0 <= j < k ==> (#[trigger] self.spec_room_instances()[j]).1.runtime_id != id,
                    None => forall|j: int|
                        0 <= j < self.spec_room_instances().len() ==> (#[trigger] self.spec_room_instances()[j]).1.runtime_id
                            != id,
                },
            },
    {
        let runtime_id = match self.other_runtime_id {
            Some(id) => id,
            None => match self.other_instance {
                Some(instance) => instance.runtime_id,
                None => return None,
            },
        };
        let all = self.room_instances_iter();
        let mut k: usize = 0;
        while k < all.len()
            invariant
                k <= all@.len(),
                self.spec_other_runtime_id() == Some(runtime_id),
                all@.len() == self.spec_room_instances().len(),
                forall|i: int| 0 <= i < all@.len() ==> (#[trigger] all@[i]).0 == self.spec_room_instances()[i].0
                    && *all@[i].1 == self.spec_room_instances()[i].1,
                forall|j: int| 0 <= j < k ==> (#[trigger] self.spec_room_instances()[j]).1.runtime_id != runtime_id,
            decreases all@.len() - k,
        {
            let (_, instance) = all[k];
            assert(*all@[k as int].1 == self.spec_room_instances()[k as int].1);
            if instance.runtime_id == runtime_id {
                assert(self.spec_room_instances()[k as int].1 == *instance);
                return Some(instance);
            }
            k = k + 1;
        }
        None
    }

    /// The positions of the room's instances whose object is one of
    /// `target_object_ids` (see [`Self::spec_indices_matching`]).
    pub fn room_instance_indices_matching_object_ids(&self, target_object_ids: &[usize]) -> (r: Vec<usize>)
        ensures
            r@ == self.spec_indices_matching(target_object_ids@),
    {
        broadcast use vstd::std_specs::hash::group_hash_axioms;
        let mut indices: Vec<usize> = Vec::new();
        if self.room_instance_indices_by_object_id.is_empty() {
            let mut i: usize = 0;
            while i < self.room_instances.len()
                invariant
                    i <= self.room_instances@.len(),
                    indices@ == spec_positions_of_objects(self.room_instances@.take(i as int), target_object_ids@),
                decreases self.room_instances@.len() - i,
            {
                assert(self.room_instances@.take(i + 1).drop_last() =~= self.room_instances@.take(i as int));
                if slice_contains(target_object_ids, self.room_instances[i].object_id) {
                    indices.push(i);
                }
                i = i + 1;
            }
            assert(self.room_instances@.take(i as int) =~= self.room_instances@);
            return indices;
        }
        let mut t: usize = 0;
        while t < target_object_ids.len()
            invariant
                t <= target_object_ids@.len(),
                indices@ == spec_indexed_positions(
                    self.room_instance_indices_by_object_id@,
                    target_object_ids@.take(t as int),
                ),
            decreases target_object_ids@.len() - t,
        {
            assert(target_object_ids@.take(t + 1).drop_last() =~= target_object_ids@.take(t as int));
            match self.room_instance_indices_by_object_id.get(&target_object_ids[t]) {
                Some(list) => {
                    let ghost before = indices@;
                    let mut j: usize = 0;
                    while j < list.len()
                        invariant
                            j <= list@.len(),
                            indices@ == before + list@.take(j as int),
                        decreases list@.len() - j,
                    {
                        indices.push(list[j]);
                        j = j + 1;
                        assert(indices@ =~= before + list@.take(j as int));
                    }
                    assert(list@.take(j as int) =~= list@);
                },
                None => {},
            }
            t = t + 1;
        }
        assert(target_object_ids@.take(t as int) =~= target_object_ids@);
        indices
    }

    /// The instances evaluation sees at the given positions, with their
    /// positions, skipping positions where it sees none.
    pub open spec fn spec_instances_at(&self, indices: Seq<usize>) -> Seq<(usize, RuntimeInstance<N>)>
        decreases indices.len(),
    {
        if indices.len() == 0 {
            Seq::empty()
        } else {
            let rest = self.spec_instances_at(indices.drop_last());
            match self.spec_room_instance(indices.last()) {
                Some(inst) => rest.push((indices.last(), inst)),
                None => rest,
            }
        }
    }

    /// The instances evaluation sees at the positions of the room's instances
    /// whose object is one of `target_object_ids`, with their positions.
    pub fn room_instances_matching_object_ids(&self, target_object_ids: &[usize]) -> (r: Vec<
        (usize, &RuntimeInstance<N>),
    >)
        ensures
            r@.len() == self.spec_instances_at(self.spec_indices_matching(target_object_ids@)).len(),
            forall|i: int| 0 <= i < r@.len() ==> (#[trigger] r@[i]).0 == self.spec_instances_at(
                self.spec_indices_matching(target_object_ids@),
            )[i].0 && *r@[i].1 == self.spec_instances_at(self.spec_indices_matching(target_object_ids@))[i].1,
    {
        let indices = self.room_instance_indices_matching_object_ids(target_object_ids);
        let mut out: Vec<(usize, &RuntimeInstance<N>)> = Vec::new();
        let mut k: usize = 0;
        while k < indices.len()
            invariant
                k <= indices@.len(),
                out@.len() == self.spec_instances_at(indices@.take(k as int)).len(),
                forall|i: int| 0 <= i < out@.len() ==> (#[trigger] out@[i]).0 == self.spec_instances_at(
                    indices@.take(k as int),
                )[i].0 && *out@[i].1 == self.spec_instances_at(indices@.take(k as int))[i].1,
            decreases indices@.len() - k,
        {
            let index = indices[k];
            assert(indices@.take(k + 1).drop_last() =~= indices@.take(k as int));
            assert(indices@.take(k + 1).last() == index);
            match self.room_instance(index) {
                Some(instance) => {
                    out.push((index, instance));
                },
                None => {},
            }
            k = k + 1;
        }
        assert(indices@.take(k as int) =~= indices@);
        out
    }
}

/// The candidates of the spatial index for each object of `targets` near the
/// box `query`, in the order of `targets`, each instance once.
pub open spec fn spec_candidates_near(index: RuntimeCollisionSpatialIndex, targets: Seq<usize>, query: Bounds) -> Seq<
    usize,
>
    decreases targets.len(),
{
    if targets.len() == 0 {
        Seq::empty()
    } else {
        spec_add_unique(
            spec_candidates_near(index, targets.drop_last(), query),
            match index.object_cells(targets.last()) {
                Some(cells) => spec_candidates_from(cells, spec_cells_for_bounds(query.0, query.1, query.2, query.3)),
                None => Seq::empty(),
            },
        )
    }
}

/// The positions of the live solid instances of the room's list, in order.
pub open spec fn spec_solid_positions<N>(instances: Seq<RuntimeInstance<N>>) -> Seq<usize>
    decreases instances.len(),
{
    if instances.len() == 0 {
        Seq::empty()
    } else {
        let rest = spec_solid_positions(instances.drop_last());
        if instances.last().solid {
            rest.push((instances.len() - 1) as usize)
        } else {
            rest
        }
    }
}

impl<'a, N: Clone> RuntimeEvalContext<'a, N> {
    /// The positions of instances of the objects `target_object_ids` that may
    /// touch the box `query`: the spatial index's candidates where the context
    /// has one, else every matching position.
    pub fn room_instance_indices_matching_object_ids_near(&self, target_object_ids: &[usize], query: Bounds) -> (r:
        Vec<usize>)
        requires
            spec_valid_bounds(query),
        ensures
            r@ == match self.collision_spatial_index {
                Some(index) => spec_candidates_near(*index, target_object_ids@, query),
                None => self.spec_indices_matching(target_object_ids@),
            },
    {
        match self.collision_spatial_index {
            Some(spatial_index) => {
                let mut indices: Vec<usize> = Vec::new();
                let mut t: usize = 0;
                while t < target_object_ids.len()
                    invariant
                        spec_valid_bounds(query),
                        t <= target_object_ids@.len(),
                        indices@ == spec_candidates_near(*spatial_index, target_object_ids@.take(t as int), query),
                    decreases target_object_ids@.len() - t,
                {
                    assert(target_object_ids@.take(t + 1).drop_last() =~= target_object_ids@.take(t as int));
                    let candidates = spatial_index.candidate_indices(target_object_ids[t], query);
                    let ghost start = indices@;
                    let mut k: usize = 0;
                    while k < candidates.len()
                        invariant
                            k <= candidates@.len(),
                            indices@ == spec_add_unique(start, candidates@.take(k as int)),
                        decreases candidates@.len() - k,
                    {
                        assert(candidates@.take(k + 1).drop_last() =~= candidates@.take(k as int));
                        let index = candidates[k];
                        if !slice_contains(indices.as_slice(), index) {
                            indices.push(index);
                        }
                        k = k + 1;
                    }
                    assert(candidates@.take(k as int) =~= candidates@);
                    t = t + 1;
                }
                assert(target_object_ids@.take(t as int) =~= target_object_ids@);
                indices
            },
            None => self.room_instance_indices_matching_object_ids(target_object_ids),
        }
    }

    /// The positions of solid instances that may touch the box `query`: the
    /// spatial index's solid candidates where the context has one, else every
    /// solid instance of the room's list.
    pub fn solid_room_instance_indices_near(&self, query: Bounds) -> (r: Vec<usize>)
        requires
            spec_valid_bounds(query),
        ensures
            r@ == match self.collision_spatial_index {
                Some(index) => spec_candidates_from(
                    index.solid(),
                    spec_cells_for_bounds(query.0, query.1, query.2, query.3),
                ),
                None => spec_solid_positions(self.room_instances@),
            },
    {
        match self.collision_spatial_index {
            Some(spatial_index) => spatial_index.solid_candidate_indices(query),
            None => {
                let mut indices: Vec<usize> = Vec::new();
                let mut i: usize = 0;
                while i < self.room_instances.len()
                    invariant
                        i <= self.room_instances@.len(),
                        indices@ == spec_solid_positions(self.room_instances@.take(i as int)),
                    decreases self.room_instances@.len() - i,
                {
                    assert(self.room_instances@.take(i + 1).drop_last() =~= self.room_instances@.take(i as int));
                    if self.room_instances[i].solid {
                        indices.push(i);
                    }
                    i = i + 1;
                }
                assert(self.room_instances@.take(i as int) =~= self.room_instances@);
                indices
            },
        }
    }
}

/// Whether `value` is an element of `s`.
pub(crate) fn slice_contains(s: &[usize], value: usize) -> (r: bool)
    ensures
        r == s@.contains(value),
{
    let mut i: usize = 0;
    while i < s.len()
        invariant
            i <= s@.len(),
            forall|j: int| 0 <= j < i ==> s@[j] != value,
        decreases s@.len() - i,
    {
        if s[i] == value {
            return true;
        }
        i = i + 1;
    }
    false
}

/// The room after the current one in the room order, if there is one.
pub open spec fn spec_next_room_id(room_order: Seq<usize>, current_room_id: usize) -> Option<usize> {
    if exists|i: int| 0 <= i < room_order.len() && room_order[i] == current_room_id {
        let i = choose|i: int|
            0 <= i < room_order.len() && room_order[i] == current_room_id && forall|j: int|
                0 <= j < i ==> room_order[j] != current_room_id;
        if i + 1 < room_order.len() {
            Some(room_order[i + 1])
        } else {
            None
        }
    } else {
        None
    }
}

/// The room after the current one in the room order: the one following the
/// first occurrence of the current room; none without a context.
pub fn next_room_id<N: Clone>(
    _instance: &RuntimeInstance<N>,
    _globals: &HashMap<String, crate::model::RuntimeValue<N>>,
    eval_context: Option<&RuntimeEvalContext<N>>,
) -> (r: Option<usize>)
    ensures
        r == match eval_context {
            Some(context) => spec_next_room_id(context.room_order@, context.current_room_id),
            None => None,
        },
{
    let context = match eval_context {
        Some(c) => c,
        None => return None,
    };
    let order = context.room_order;
    let mut i: usize = 0;
    while i < order.len()
        invariant
            i <= order@.len(),
            order@ == context.room_order@,
            eval_context == Some(context),
            forall|j: int| 0 <= j < i ==> order@[j] != context.current_room_id,
        decreases order@.len() - i,
    {
        if order[i] == context.current_room_id {
            proof {
                let c = choose|c: int|
                    0 <= c < order@.len() && order@[c] == context.current_room_id && forall|j: int|
                        0 <= j < c ==> order@[j] != context.current_room_id;
                assert(c == i);
            }
            if i + 1 < order.len() {
                return Some(order[i + 1]);
            }
            return None;
        }
        i = i + 1;
    }
    None
}

} // verus!
