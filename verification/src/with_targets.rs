//! The instances a `with` statement runs its body for.

use vstd::prelude::*;

use crate::context::RuntimeExecutionScope;
use crate::eval_context::RuntimeEvalContext;
use crate::lowered::LoweredLogicExpr;
use crate::model::RuntimeInstance;
use crate::text::{spec_ascii_lower, str_eq, to_ascii_lowercase};

verus! {

/// The targets of a `with`: the positions of the instances it runs for, or,
/// where the target is an expression naming an instance, that the caller
/// resolves it by evaluating it.
#[derive(Debug)]
pub enum WithTargets {
    Indices(Vec<usize>),
    ByReference,
}

/// The positions, in order, of the alive instances of `seen` whose object is
/// among `objects` (any object where `objects` is `None`).
pub open spec fn spec_alive_positions<N>(seen: Seq<(usize, RuntimeInstance<N>)>, objects: Option<Seq<usize>>) -> Seq<
    usize,
>
    decreases seen.len(),
{
    if seen.len() == 0 {
        Seq::empty()
    } else {
        let rest = spec_alive_positions(seen.drop_last(), objects);
        let (i, inst) = seen.last();
        if inst.alive && match objects {
            Some(o) => o.contains(inst.object_id),
            None => true,
        } {
            rest.push(i)
        } else {
            rest
        }
    }
}

/// The position of the first instance of `seen` with runtime id `id`.
pub open spec fn spec_first_with_runtime_id<N>(seen: Seq<(usize, RuntimeInstance<N>)>, id: usize) -> Option<usize>
    decreases seen.len(),
{
    if seen.len() == 0 {
        None
    } else {
        match spec_first_with_runtime_id(seen.drop_last(), id) {
            Some(p) => Some(p),
            None => if seen.last().1.runtime_id == id {
                Some(seen.last().0)
            } else {
                None
            },
        }
    }
}

/// The positions of `indices`, in order, at which evaluation sees an alive
/// instance.
pub open spec fn spec_alive_at<'a, N: Clone>(ctx: RuntimeEvalContext<'a, N>, indices: Seq<usize>) -> Seq<usize>
    decreases indices.len(),
{
    if indices.len() == 0 {
        Seq::empty()
    } else {
        let rest = spec_alive_at(ctx, indices.drop_last());
        match ctx.spec_room_instance(indices.last()) {
            Some(inst) => if inst.alive {
                rest.push(indices.last())
            } else {
                rest
            },
            None => rest,
        }
    }
}

/// The `with` targets of a name that the package's `place_meeting` table
/// maps to the objects `wanted` (non-empty): from the index by object where
/// it has entries, else by scanning what evaluation sees; alive ones only.
pub open spec fn spec_named_targets<'a, N: Clone>(ctx: RuntimeEvalContext<'a, N>, wanted: Seq<usize>) -> Seq<usize> {
    if ctx.room_instance_indices_by_object_id@.is_empty() {
        spec_alive_positions(ctx.spec_room_instances(), Some(wanted))
    } else {
        spec_alive_at(ctx, ctx.spec_indices_matching(wanted))
    }
}

/// The targets of `with (target)` run by the instance at `instance_index`:
/// - `self`, `other` and `all` (any case): the instance itself; the first
///   instance evaluation sees with the other instance's runtime id, if any;
///   every alive instance;
/// - `__iwm_object(id)`: the alive instances of object `literal_object_id`,
///   which is the call's first argument read as a whole object id (none where
///   it is not one);
/// - a name that is not a declared variable and that the `place_meeting`
///   table maps to objects: their alive instances (see
///   [`spec_named_targets`]);
/// - anything else is resolved by reference.
pub open spec fn spec_with_targets<'a, N: Clone, V: Clone>(
    ctx: RuntimeEvalContext<'a, N>,
    target: LoweredLogicExpr<N>,
    instance_index: usize,
    scope: RuntimeExecutionScope<V>,
    literal_object_id: Option<usize>,
) -> Option<Seq<usize>> {
    match target {
        LoweredLogicExpr::Identifier(name) => if spec_ascii_lower(name@) == "self"@ {
            Some(seq![instance_index])
        } else if spec_ascii_lower(name@) == "other"@ {
            Some(
                match ctx.spec_other_runtime_id() {
                    Some(id) => match spec_first_with_runtime_id(ctx.spec_room_instances(), id) {
                        Some(p) => seq![p],
                        None => Seq::empty(),
                    },
                    None => Seq::empty(),
                },
            )
        } else if spec_ascii_lower(name@) == "all"@ {
            Some(spec_alive_positions(ctx.spec_room_instances(), None))
        } else if scope.spec_is_local_key(name@) {
            None
        } else {
            let lower = spec_ascii_lower(name@);
            if ctx.place_target_ids_by_name@.contains_key(lower) && ctx.place_target_ids_by_name@[lower]@.len() > 0 {
                Some(spec_named_targets(ctx, ctx.place_target_ids_by_name@[lower]@))
            } else {
                None
            }
        },
        LoweredLogicExpr::Call { name, .. } => if name@ == "__iwm_object"@ {
            Some(
                match literal_object_id {
                    Some(o) => spec_alive_positions(ctx.spec_room_instances(), Some(seq![o])),
                    None => Seq::empty(),
                },
            )
        } else {
            None
        },
        _ => None,
    }
}

impl<'a, N: Clone> RuntimeEvalContext<'a, N> {
    /// The positions of the alive instances evaluation sees whose object is
    /// among `objects` (any where `None`).
    fn alive_positions(&self, objects: Option<&[usize]>) -> (r: Vec<usize>)
        ensures
            r@ == spec_alive_positions(
                self.spec_room_instances(),
                match objects {
                    Some(o) => Some(o@),
                    None => None,
                },
            ),
    {
        let ghost filter = match objects {
            Some(o) => Some(o@),
            None => None,
        };
        let seen = self.room_instances_iter();
        let ghost all = self.spec_room_instances();
        let mut out: Vec<usize> = Vec::new();
        let mut i: usize = 0;
        while i < seen.len()
            invariant
                i <= seen@.len(),
                all == self.spec_room_instances(),
                seen@.len() == all.len(),
                forall|k: int| 0 <= k < seen@.len() ==> (#[trigger] seen@[k]).0 == all[k].0 && *seen@[k].1 == all[k].1,
                filter == match objects {
                    Some(o) => Some(o@),
                    None => None,
                },
                out@ == spec_alive_positions(all.take(i as int), filter),
            decreases seen@.len() - i,
        {
            let (index, instance) = seen[i];
            proof {
                assert(all.take(i + 1).drop_last() =~= all.take(i as int));
                assert(all.take(i + 1).last() == all[i as int]);
            }
            let wanted = match objects {
                Some(o) => crate::eval_context::slice_contains(o, instance.object_id),
                None => true,
            };
            if instance.alive && wanted {
                out.push(index);
            }
            i = i + 1;
        }
        assert(all.take(i as int) =~= all);
        out
    }

    /// The position of the first instance evaluation sees with runtime id `id`.
    fn first_with_runtime_id(&self, id: usize) -> (r: Option<usize>)
        ensures
            r == spec_first_with_runtime_id(self.spec_room_instances(), id),
    {
        let seen = self.room_instances_iter();
        let ghost all = self.spec_room_instances();
        let mut i: usize = 0;
        while i < seen.len()
            invariant
                i <= seen@.len(),
                all == self.spec_room_instances(),
                seen@.len() == all.len(),
                forall|k: int| 0 <= k < seen@.len() ==> (#[trigger] seen@[k]).0 == all[k].0 && *seen@[k].1 == all[k].1,
                spec_first_with_runtime_id(all.take(i as int), id) is None,
            decreases seen@.len() - i,
        {
            let (index, instance) = seen[i];
            proof {
                assert(all.take(i + 1).drop_last() =~= all.take(i as int));
                assert(all.take(i + 1).last() == all[i as int]);
            }
            if instance.runtime_id == id {
                proof { lemma_first_with_id_prefix(all, id, i + 1); }
                return Some(index);
            }
            i = i + 1;
        }
        assert(all.take(i as int) =~= all);
        None
    }

    /// The positions of `indices` at which evaluation sees an alive instance.
    fn alive_at(&self, indices: &Vec<usize>) -> (r: Vec<usize>)
        ensures
            r@ == spec_alive_at(*self, indices@),
    {
        let mut out: Vec<usize> = Vec::new();
        let mut k: usize = 0;
        while k < indices.len()
            invariant
                k <= indices@.len(),
                out@ == spec_alive_at(*self, indices@.take(k as int)),
            decreases indices@.len() - k,
        {
            assert(indices@.take(k + 1).drop_last() =~= indices@.take(k as int));
            match self.room_instance(indices[k]) {
                Some(instance) => {
                    if instance.alive {
                        out.push(indices[k]);
                    }
                },
                None => {},
            }
            k = k + 1;
        }
        assert(indices@.take(k as int) =~= indices@);
        out
    }

    /// The targets of `with (target)` (see [`spec_with_targets`]).
    pub fn with_target_indices<V: Clone>(
        &self,
        target: &LoweredLogicExpr<N>,
        instance_index: usize,
        scope: &RuntimeExecutionScope<V>,
        literal_object_id: Option<usize>,
    ) -> (r: WithTargets)
        ensures
            match spec_with_targets(*self, *target, instance_index, *scope, literal_object_id) {
                Some(indices) => r matches WithTargets::Indices(v) && v@ == indices,
                None => r is ByReference,
            },
    {
        broadcast use vstd::std_specs::hash::group_hash_axioms;
        match target {
            LoweredLogicExpr::Identifier(name) => {
                let lower = to_ascii_lowercase(name.as_str());
                if str_eq(lower.as_str(), "self") {
                    let mut v: Vec<usize> = Vec::new();
                    v.push(instance_index);
                    return WithTargets::Indices(v);
                }
                if str_eq(lower.as_str(), "other") {
                    let id = match self.other_runtime_id {
                        Some(id) => Some(id),
                        None => match self.other_instance {
                            Some(inst) => Some(inst.runtime_id),
                            None => None,
                        },
                    };
                    let mut v: Vec<usize> = Vec::new();
                    match id {
                        Some(id) => match self.first_with_runtime_id(id) {
                            Some(p) => {
                                v.push(p);
                            },
                            None => {},
                        },
                        None => {},
                    }
                    return WithTargets::Indices(v);
                }
                if str_eq(lower.as_str(), "all") {
                    return WithTargets::Indices(self.alive_positions(None));
                }
                if scope.is_local_key(name.as_str()) {
                    return WithTargets::ByReference;
                }
                match self.place_target_ids_by_name.get(lower.as_str()) {
                    Some(wanted) => {
                        if wanted.len() == 0 {
                            return WithTargets::ByReference;
                        }
                        if self.room_instance_indices_by_object_id.is_empty() {
                            WithTargets::Indices(self.alive_positions(Some(wanted.as_slice())))
                        } else {
                            let indices = self.room_instance_indices_matching_object_ids(wanted.as_slice());
                            WithTargets::Indices(self.alive_at(&indices))
                        }
                    },
                    None => WithTargets::ByReference,
                }
            },
            LoweredLogicExpr::Call { name, .. } => {
                if !str_eq(name.as_str(), "__iwm_object") {
                    return WithTargets::ByReference;
                }
                match literal_object_id {
                    Some(o) => {
                        let mut one: Vec<usize> = Vec::new();
                        one.push(o);
                        assert(one@ =~= seq![o]);
                        WithTargets::Indices(self.alive_positions(Some(one.as_slice())))
                    },
                    None => WithTargets::Indices(Vec::new()),
                }
            },
            _ => WithTargets::ByReference,
        }
    }
}

/// A runtime id found in a prefix is the first in the whole.
proof fn lemma_first_with_id_prefix<N>(seen: Seq<(usize, RuntimeInstance<N>)>, id: usize, k: int)
    requires
        0 <= k <= seen.len(),
        spec_first_with_runtime_id(seen.take(k), id) is Some,
    ensures
        spec_first_with_runtime_id(seen, id) == spec_first_with_runtime_id(seen.take(k), id),
    decreases seen.len(),
{
    if k < seen.len() {
        assert(seen.drop_last().take(k) =~= seen.take(k));
        lemma_first_with_id_prefix(seen.drop_last(), id, k);
    } else {
        assert(seen.take(k) =~= seen);
    }
}

/// `with (self)` runs only for the running instance, and `with (all)` for
/// exactly the alive instances evaluation sees, in order, whatever the case
/// of the name; `with (other)` runs for at most one instance, one with the
/// other instance's runtime id.
pub proof fn law_with_self_other_all<'a, N: Clone, V: Clone>(
    ctx: RuntimeEvalContext<'a, N>,
    name: String,
    instance_index: usize,
    scope: RuntimeExecutionScope<V>,
    literal_object_id: Option<usize>,
)
    ensures
        spec_ascii_lower(name@) == "self"@ ==> spec_with_targets(
            ctx,
            LoweredLogicExpr::Identifier(name),
            instance_index,
            scope,
            literal_object_id,
        ) == Some(seq![instance_index]),
        spec_ascii_lower(name@) == "all"@ ==> spec_with_targets(
            ctx,
            LoweredLogicExpr::Identifier(name),
            instance_index,
            scope,
            literal_object_id,
        ) == Some(spec_alive_positions(ctx.spec_room_instances(), None)),
        spec_ascii_lower(name@) == "other"@ ==> (spec_with_targets(
            ctx,
            LoweredLogicExpr::Identifier(name),
            instance_index,
            scope,
            literal_object_id,
        ) matches Some(t) && t.len() <= 1),
{
    reveal_strlit("self");
    reveal_strlit("other");
    reveal_strlit("all");
    assert("other"@.len() != "self"@.len());
    assert("all"@.len() != "self"@.len());
    assert("all"@.len() != "other"@.len());
}

} // verus!
