//! Tables the runtime precomputes from a game package: the blocks of each
//! object's events of a tag, the collision targets of each object, the objects
//! a `place_meeting` name stands for, and the order of rooms.

use std::collections::HashMap;

use vstd::prelude::*;
use vstd::hash_map::StringHashMap;

use crate::event_dispatch::{
    collision_event_target_object_ids, object_event_block_ids, object_ids_matching_or_inheriting_from,
    object_matches_or_inherits_from, spec_collision_targets_from, spec_event_blocks_from, spec_event_selector_parts,
    spec_chain_ends, spec_ids_inheriting, spec_inherits_from, spec_parent_chains_terminate, spec_string_views, RuntimeEventSelector,
};
use crate::lowered::LoweredLogicEntry;
use crate::model::{ObjectDefinition, ObjectEvent, RuntimeInstance, RuntimePackage, ScriptBlock};
use crate::text::{
    char_len, eq_ignore_ascii_case, parse_u32_range, parse_usize_range, spec_ascii_lower, spec_parse_u32,
    spec_parse_usize, str_eq, to_ascii_lowercase,
};

verus! {

/// Position of the last of the first `k` objects with id `id`.
pub open spec fn spec_last_object_before(objects: Seq<ObjectDefinition>, id: usize, k: int) -> Option<int>
    decreases k,
{
    if k <= 0 {
        None
    } else if objects[k - 1].id == id {
        Some(k - 1)
    } else {
        spec_last_object_before(objects, id, k - 1)
    }
}

/// The block ids of the events with tag `tag`, in order.
pub open spec fn spec_tagged_blocks(events: Seq<ObjectEvent>, tag: Seq<char>) -> Seq<Seq<char>>
    decreases events.len(),
{
    if events.len() == 0 {
        Seq::empty()
    } else {
        let rest = spec_tagged_blocks(events.drop_last(), tag);
        if events.last().event_tag@ == tag {
            rest.push(events.last().block_id@)
        } else {
            rest
        }
    }
}

proof fn lemma_last_object_found(objects: Seq<ObjectDefinition>, id: usize, k: int)
    requires
        0 <= k <= objects.len(),
    ensures
        spec_last_object_before(objects, id, k) matches Some(i) ==> 0 <= i < k && objects[i].id == id,
        spec_last_object_before(objects, id, k) is None <==> forall|i: int| 0 <= i < k ==> objects[i].id != id,
    decreases k,
{
    if k > 0 {
        lemma_last_object_found(objects, id, k - 1);
    }
}

fn tagged_blocks(events: &Vec<ObjectEvent>, tag: &str) -> (r: Vec<String>)
    ensures
        spec_string_views(r@) == spec_tagged_blocks(events@, tag@),
{
    let mut ids: Vec<String> = Vec::new();
    let mut i: usize = 0;
    while i < events.len()
        invariant
            i <= events@.len(),
            spec_string_views(ids@) =~= spec_tagged_blocks(events@.take(i as int), tag@),
        decreases events@.len() - i,
    {
        assert(events@.take(i + 1).drop_last() =~= events@.take(i as int));
        if str_eq(&events[i].event_tag, tag) {
            ids.push(events[i].block_id.clone());
        }
        i = i + 1;
    }
    assert(events@.take(i as int) =~= events@);
    ids
}

/// For every object id of the package, the block ids of the events with tag
/// `event_tag` of the last object with that id.
pub fn object_event_blocks_by_tag(package: &RuntimePackage, event_tag: &str) -> (r: HashMap<usize, Vec<String>>)
    ensures
        forall|id: usize| #[trigger] r@.contains_key(id) <==> exists|i: int|
            0 <= i < package.objects@.len() && package.objects@[i].id == id,
        forall|id: usize| #[trigger] r@.contains_key(id) ==> ({
            let i = spec_last_object_before(package.objects@, id, package.objects@.len() as int)->0;
            spec_string_views(r@[id]@) == spec_tagged_blocks(package.objects@[i].events@, event_tag@)
        }),
{
    broadcast use vstd::std_specs::hash::group_hash_axioms;
    let objects = &package.objects;
    let mut map: HashMap<usize, Vec<String>> = HashMap::new();
    let mut k: usize = 0;
    while k < objects.len()
        invariant
            objects@ == package.objects@,
            k <= objects@.len(),
            forall|id: usize| #[trigger] map@.contains_key(id) <==> spec_last_object_before(objects@, id, k as int)
                is Some,
            forall|id: usize| #[trigger] map@.contains_key(id) ==> ({
                let i = spec_last_object_before(objects@, id, k as int)->0;
                spec_string_views(map@[id]@) == spec_tagged_blocks(objects@[i].events@, event_tag@)
            }),
        decreases objects@.len() - k,
    {
        let blocks = tagged_blocks(&objects[k].events, event_tag);
        map.insert(objects[k].id, blocks);
        k = k + 1;
    }
    assert forall|id: usize| #[trigger] map@.contains_key(id) <==> exists|i: int|
        0 <= i < package.objects@.len() && package.objects@[i].id == id by {
        lemma_last_object_found(objects@, id, objects@.len() as int);
    }
    map
}

/// For every object of the package with collision events of its own or
/// inherited, its collision targets.
pub fn collision_target_ids_by_object_id(package: &RuntimePackage) -> (r: HashMap<usize, Vec<usize>>)
    requires
        spec_parent_chains_terminate(package.objects@),
    ensures
        forall|id: usize| #[trigger] r@.contains_key(id) <==> (exists|i: int|
            0 <= i < package.objects@.len() && package.objects@[i].id == id) && spec_collision_targets_from(
            package.objects@,
            Some(id),
            (package.objects@.len() + 1) as nat,
        ).len() > 0,
        forall|id: usize| #[trigger] r@.contains_key(id) ==> r@[id]@ == spec_collision_targets_from(
            package.objects@,
            Some(id),
            (package.objects@.len() + 1) as nat,
        ),
{
    broadcast use vstd::std_specs::hash::group_hash_axioms;
    let objects = &package.objects;
    let ghost objs = package.objects@;
    let mut map: HashMap<usize, Vec<usize>> = HashMap::new();
    let mut k: usize = 0;
    while k < objects.len()
        invariant
            objs == package.objects@,
            objects@ == objs,
            spec_parent_chains_terminate(objs),
            k <= objs.len(),
            forall|id: usize| #[trigger] map@.contains_key(id) <==> (exists|i: int|
                0 <= i < k && objs[i].id == id) && spec_collision_targets_from(
                objs,
                Some(id),
                (objs.len() + 1) as nat,
            ).len() > 0,
            forall|id: usize| #[trigger] map@.contains_key(id) ==> map@[id]@ == spec_collision_targets_from(
                objs,
                Some(id),
                (objs.len() + 1) as nat,
            ),
        decreases objs.len() - k,
    {
        let id = objects[k].id;
        let targets = collision_event_target_object_ids(package, id);
        if targets.len() > 0 {
            map.insert(id, targets);
        }
        assert forall|id2: usize| #[trigger] map@.contains_key(id2) <==> (exists|i: int|
            0 <= i < k + 1 && objs[i].id == id2) && spec_collision_targets_from(
            objs,
            Some(id2),
            (objs.len() + 1) as nat,
        ).len() > 0 by {
            if id2 == id {
                assert(objs[k as int].id == id2);
            } else if exists|i: int| 0 <= i < k + 1 && objs[i].id == id2 {
                let i = choose|i: int| 0 <= i < k + 1 && objs[i].id == id2;
                assert(i < k);
            }
        }
        k = k + 1;
    }
    map
}

/// Whether the object at position `r` goes by `name`, ignoring ASCII case.
pub open spec fn spec_named(objects: Seq<ObjectDefinition>, r: int, name: Seq<char>) -> bool {
    spec_ascii_lower(objects[r].name@) == name
}

/// The lowercased names of the objects, each object id under its name:
/// `place_meeting` and `place_free` take an object name for every object that
/// is, or inherits from, an object of that name (ignoring ASCII case).
pub open spec fn spec_place_targets(objects: Seq<ObjectDefinition>, name: Seq<char>, k: int) -> Seq<usize>
    decreases k,
{
    if k <= 0 {
        Seq::empty()
    } else {
        let rest = spec_place_targets(objects, name, k - 1);
        if exists|r: int|
            0 <= r < objects.len() && spec_named(objects, r, name) && spec_inherits_from(
                objects,
                objects[k - 1].id,
                objects[r].id,
            ) {
            rest.push(objects[k - 1].id)
        } else {
            rest
        }
    }
}

/// Lowercasing twice lowercases once.
pub proof fn lemma_ascii_lower_idempotent(s: Seq<char>)
    ensures
        spec_ascii_lower(spec_ascii_lower(s)) == spec_ascii_lower(s),
{
    assert(spec_ascii_lower(spec_ascii_lower(s)) =~= spec_ascii_lower(s));
}

/// The objects each lowercased object name stands for in `place_meeting` and
/// `place_free`: every object that is, or inherits from, an object of that
/// name (see [`spec_place_targets`]).
pub fn compute_place_target_ids_by_name(package: &RuntimePackage) -> (r: StringHashMap<Vec<usize>>)
    requires
        spec_parent_chains_terminate(package.objects@),
    ensures
        forall|name: Seq<char>| #[trigger] r@.contains_key(name) <==> exists|i: int|
            0 <= i < package.objects@.len() && spec_named(package.objects@, i, name),
        forall|name: Seq<char>| #[trigger] r@.contains_key(name) ==> r@[name]@ == spec_place_targets(
            package.objects@,
            name,
            package.objects@.len() as int,
        ),
{
    let objects = &package.objects;
    let ghost objs = package.objects@;
    let n = objects.len();
    let mut map: StringHashMap<Vec<usize>> = StringHashMap::new();
    let mut k: usize = 0;
    while k < n
        invariant
            objs == package.objects@,
            objects@ == objs,
            n == objs.len(),
            spec_parent_chains_terminate(objs),
            k <= n,
            forall|name: Seq<char>| #[trigger] map@.contains_key(name) <==> exists|i: int|
                0 <= i < k && spec_named(objs, i, name),
            forall|name: Seq<char>| #[trigger] map@.contains_key(name) ==> map@[name]@ == spec_place_targets(
                objs,
                name,
                n as int,
            ),
        decreases n - k,
    {
        let name = to_ascii_lowercase(objects[k].name.as_str());
        proof {
            lemma_ascii_lower_idempotent(objs[k as int].name@);
        }
        assert(spec_named(objs, k as int, name@));
        if !map.contains_key(name.as_str()) {
            // The ids of the objects going by `name`, with the position of each.
            let mut roots: Vec<usize> = Vec::new();
            let ghost mut positions: Seq<int> = Seq::empty();
            let mut r: usize = 0;
            while r < n
                invariant
                    objects@ == objs,
                    n == objs.len(),
                    r <= n,
                    spec_ascii_lower(name@) == name@,
                    positions.len() == roots@.len(),
                    forall|q: int| #![trigger positions[q]] 0 <= q < roots@.len() ==> 0 <= positions[q] < r
                        && spec_named(objs, positions[q], name@) && roots@[q] == objs[positions[q]].id,
                    forall|j: int| 0 <= j < r && spec_named(objs, j, name@) ==> #[trigger] roots@.contains(objs[j].id),
                decreases n - r,
            {
                let ghost before = roots@;
                if eq_ignore_ascii_case(objects[r].name.as_str(), name.as_str()) {
                    roots.push(objects[r].id);
                    proof {
                        positions = positions.push(r as int);
                    }
                    assert(roots@[roots@.len() - 1] == objs[r as int].id);
                }
                assert forall|j: int| 0 <= j < r + 1 && spec_named(objs, j, name@) implies #[trigger] roots@.contains(
                    objs[j].id,
                ) by {
                    if j == r {
                        assert(roots@[roots@.len() - 1] == objs[j].id);
                    } else {
                        assert(before.contains(objs[j].id));
                        let q = choose|q: int| 0 <= q < before.len() && before[q] == objs[j].id;
                        assert(roots@[q] == objs[j].id);
                    }
                }
                r = r + 1;
            }
            // The objects inheriting from one of them.
            let mut targets: Vec<usize> = Vec::new();
            let mut t: usize = 0;
            while t < n
                invariant
                    objs == package.objects@,
                    objects@ == objs,
                    n == objs.len(),
                    spec_parent_chains_terminate(objs),
                    t <= n,
                    positions.len() == roots@.len(),
                    forall|q: int| #![trigger positions[q]] 0 <= q < roots@.len() ==> 0 <= positions[q] < n
                        && spec_named(objs, positions[q], name@) && roots@[q] == objs[positions[q]].id,
                    forall|j: int| 0 <= j < n && spec_named(objs, j, name@) ==> #[trigger] roots@.contains(objs[j].id),
                    targets@ == spec_place_targets(objs, name@, t as int),
                decreases n - t,
            {
                let id = objects[t].id;
                let mut any = false;
                let mut q: usize = 0;
                while q < roots.len()
                    invariant
                        objs == package.objects@,
                        spec_parent_chains_terminate(objs),
                        q <= roots@.len(),
                        any <==> exists|p: int| 0 <= p < q && spec_inherits_from(objs, id, #[trigger] roots@[p]),
                    decreases roots@.len() - q,
                {
                    if object_matches_or_inherits_from(package, id, roots[q]) {
                        any = true;
                    }
                    q = q + 1;
                }
                proof {
                    let spec_any = exists|j: int|
                        0 <= j < objs.len() && spec_named(objs, j, name@) && spec_inherits_from(
                            objs,
                            objs[t as int].id,
                            objs[j].id,
                        );
                    if any {
                        let p = choose|p: int| 0 <= p < roots@.len() && spec_inherits_from(objs, id, #[trigger] roots@[p]);
                        let j = positions[p];
                        assert(0 <= j < objs.len() && spec_named(objs, j, name@) && spec_inherits_from(
                            objs,
                            objs[t as int].id,
                            objs[j].id,
                        ));
                        assert(spec_any);
                    }
                    if spec_any {
                        let j = choose|j: int|
                            0 <= j < objs.len() && spec_named(objs, j, name@) && spec_inherits_from(
                                objs,
                                objs[t as int].id,
                                objs[j].id,
                            );
                        assert(roots@.contains(objs[j].id));
                        let p = choose|p: int| 0 <= p < roots@.len() && roots@[p] == objs[j].id;
                        assert(spec_inherits_from(objs, id, roots@[p]));
                    }
                    assert(any == spec_any);
                    assert(spec_place_targets(objs, name@, t + 1) == if spec_any {
                        spec_place_targets(objs, name@, t as int).push(objs[t as int].id)
                    } else {
                        spec_place_targets(objs, name@, t as int)
                    });
                }
                if any {
                    targets.push(id);
                }
                t = t + 1;
            }
            map.insert(name, targets);
        }
        assert forall|nm: Seq<char>| #[trigger] map@.contains_key(nm) <==> exists|i: int|
            0 <= i < k + 1 && spec_named(objs, i, nm) by {
            if exists|i: int| 0 <= i < k + 1 && spec_named(objs, i, nm) {
                let i = choose|i: int| 0 <= i < k + 1 && spec_named(objs, i, nm);
                if i == k {
                    assert(nm == name@);
                }
            }
        }
        k = k + 1;
    }
    map
}

/// A copy of a list of ids.
fn copy_ids(ids: &Vec<usize>) -> (r: Vec<usize>)
    ensures
        r@ == ids@,
{
    let mut out: Vec<usize> = Vec::new();
    let mut i: usize = 0;
    while i < ids.len()
        invariant
            i <= ids@.len(),
            out@ == ids@.take(i as int),
        decreases ids@.len() - i,
    {
        out.push(ids[i]);
        i = i + 1;
        assert(out@ =~= ids@.take(i as int));
    }
    assert(ids@.take(i as int) =~= ids@);
    out
}

/// The order rooms are played in: the manifest's order where it names one,
/// else the order rooms are defined in.
pub fn runtime_room_order(package: &RuntimePackage) -> (r: Vec<usize>)
    ensures
        r@ == if package.manifest_room_order@.len() == 0 {
            package.room_ids@
        } else {
            package.manifest_room_order@
        },
{
    if package.manifest_room_order.len() == 0 {
        copy_ids(&package.room_ids)
    } else {
        copy_ids(&package.manifest_room_order)
    }
}

/// Whether `target` is a collision target listed for one of the first `k`
/// objects, or, within object `k`, among the first `j` targets of its list.
pub open spec fn spec_listed_target(
    objects: Seq<ObjectDefinition>,
    collision_targets: Map<usize, Vec<usize>>,
    k: int,
    j: int,
    target: usize,
) -> bool {
    ||| exists|i: int|
        #![trigger objects[i]]
        0 <= i < k && collision_targets.contains_key(objects[i].id) && collision_targets[objects[i].id]@.contains(target)
    ||| (0 <= k < objects.len() && collision_targets.contains_key(objects[k].id) && exists|q: int|
        0 <= q < j && #[trigger] collision_targets[objects[k].id]@[q] == target)
}

/// For every object some object has collision events with, the ids of the
/// objects that are it or inherit from it. The map of collision targets is the
/// one built for this package: each of its keys is an object's id.
pub fn collision_matching_object_ids_by_target(
    package: &RuntimePackage,
    collision_targets: &HashMap<usize, Vec<usize>>,
) -> (r: HashMap<usize, Vec<usize>>)
    requires
        spec_parent_chains_terminate(package.objects@),
        forall|id: usize| #[trigger] collision_targets@.contains_key(id) ==> exists|i: int|
            0 <= i < package.objects@.len() && package.objects@[i].id == id,
    ensures
        forall|t: usize| #[trigger] r@.contains_key(t) <==> exists|id: usize|
            #[trigger] collision_targets@.contains_key(id) && collision_targets@[id]@.contains(t),
        forall|t: usize| #[trigger] r@.contains_key(t) ==> r@[t]@ == spec_ids_inheriting(
            package.objects@,
            package.objects@,
            t,
        ),
{
    broadcast use vstd::std_specs::hash::group_hash_axioms;
    let objects = &package.objects;
    let ghost objs = package.objects@;
    let ghost targets = collision_targets@;
    let mut map: HashMap<usize, Vec<usize>> = HashMap::new();
    let mut k: usize = 0;
    while k < objects.len()
        invariant
            objs == package.objects@,
            objects@ == objs,
            targets == collision_targets@,
            spec_parent_chains_terminate(objs),
            k <= objs.len(),
            forall|t: usize| #[trigger] map@.contains_key(t) <==> spec_listed_target(objs, targets, k as int, 0, t),
            forall|t: usize| #[trigger] map@.contains_key(t) ==> map@[t]@ == spec_ids_inheriting(objs, objs, t),
        decreases objs.len() - k,
    {
        match collision_targets.get(&objects[k].id) {
            Some(list) => {
                let mut j: usize = 0;
                while j < list.len()
                    invariant
                        objs == package.objects@,
                        objects@ == objs,
                        targets == collision_targets@,
                        spec_parent_chains_terminate(objs),
                        k < objs.len(),
                        targets.contains_key(objs[k as int].id),
                        targets[objs[k as int].id] == *list,
                        j <= list@.len(),
                        forall|t: usize| #[trigger] map@.contains_key(t) <==> spec_listed_target(
                            objs,
                            targets,
                            k as int,
                            j as int,
                            t,
                        ),
                        forall|t: usize| #[trigger] map@.contains_key(t) ==> map@[t]@ == spec_ids_inheriting(
                            objs,
                            objs,
                            t,
                        ),
                    decreases list@.len() - j,
                {
                    let t = list[j];
                    if !map.contains_key(&t) {
                        let ids = object_ids_matching_or_inheriting_from(package, t);
                        map.insert(t, ids);
                    }
                    assert forall|t2: usize| #[trigger] map@.contains_key(t2) <==> spec_listed_target(
                        objs,
                        targets,
                        k as int,
                        j + 1,
                        t2,
                    ) by {
                        if t2 == t {
                            assert(targets[objs[k as int].id]@[j as int] == t2);
                        } else if spec_listed_target(objs, targets, k as int, j + 1, t2) {
                            if !spec_listed_target(objs, targets, k as int, j as int, t2) {
                                let q = choose|q: int| 0 <= q < j + 1 && #[trigger] targets[objs[k as int].id]@[q] == t2;
                                assert(q < j);
                            }
                        }
                    }
                    j = j + 1;
                }
                assert forall|t2: usize| #[trigger] map@.contains_key(t2) <==> spec_listed_target(
                    objs,
                    targets,
                    k + 1,
                    0,
                    t2,
                ) by {
                    if spec_listed_target(objs, targets, k as int, j as int, t2) {
                        if !(exists|i: int|
                            #![trigger objs[i]]
                            0 <= i < k && targets.contains_key(objs[i].id) && targets[objs[i].id]@.contains(t2)) {
                            let q = choose|q: int| 0 <= q < j && #[trigger] targets[objs[k as int].id]@[q] == t2;
                            assert(targets[objs[k as int].id]@.contains(t2));
                            assert(0 <= k < k + 1 && targets.contains_key(objs[k as int].id));
                        }
                    }
                    if spec_listed_target(objs, targets, k + 1, 0, t2) {
                        let i = choose|i: int|
                            #![trigger objs[i]]
                            0 <= i < k + 1 && targets.contains_key(objs[i].id) && targets[objs[i].id]@.contains(t2);
                        if i == k {
                            let q = choose|q: int| 0 <= q < list@.len() && list@[q] == t2;
                            assert(targets[objs[k as int].id]@[q] == t2);
                        }
                    }
                }
            },
            None => {
                assert forall|t2: usize| #[trigger] map@.contains_key(t2) <==> spec_listed_target(
                    objs,
                    targets,
                    k + 1,
                    0,
                    t2,
                ) by {
                    if spec_listed_target(objs, targets, k + 1, 0, t2) {
                        let i = choose|i: int|
                            #![trigger objs[i]]
                            0 <= i < k + 1 && targets.contains_key(objs[i].id) && targets[objs[i].id]@.contains(t2);
                        assert(i != k);
                    }
                }
            },
        }
        k = k + 1;
    }
    assert forall|t: usize| #[trigger] map@.contains_key(t) <==> exists|id: usize|
        #[trigger] collision_targets@.contains_key(id) && collision_targets@[id]@.contains(t) by {
        if exists|id: usize| #[trigger] collision_targets@.contains_key(id) && collision_targets@[id]@.contains(t) {
            let id = choose|id: usize| #[trigger] collision_targets@.contains_key(id) && collision_targets@[id]@.contains(t);
            let i = choose|i: int| 0 <= i < package.objects@.len() && package.objects@[i].id == id;
            assert(objs[i].id == id);
        }
    }
    map
}

/// The index of each block id among the logic entries: the last entry with
/// that block id.
pub fn lowered_logic_index<N>(entries: &Vec<LoweredLogicEntry<N>>) -> (r: StringHashMap<usize>)
    ensures
        forall|block_id: Seq<char>| #[trigger] r@.contains_key(block_id) <==> exists|i: int|
            0 <= i < entries@.len() && entries@[i].block_id@ == block_id,
        forall|block_id: Seq<char>| #[trigger] r@.contains_key(block_id) ==> ({
            let i = r@[block_id] as int;
            &&& 0 <= i < entries@.len()
            &&& entries@[i].block_id@ == block_id
            &&& forall|j: int| i < j < entries@.len() ==> entries@[j].block_id@ != block_id
        }),
{
    let mut index = StringHashMap::new();
    let mut i: usize = 0;
    while i < entries.len()
        invariant
            i <= entries@.len(),
            forall|block_id: Seq<char>| #[trigger] index@.contains_key(block_id) <==> exists|k: int|
                0 <= k < i && entries@[k].block_id@ == block_id,
            forall|block_id: Seq<char>| #[trigger] index@.contains_key(block_id) ==> ({
                let k = index@[block_id] as int;
                &&& 0 <= k < i
                &&& entries@[k].block_id@ == block_id
                &&& forall|j: int| k < j < i ==> entries@[j].block_id@ != block_id
            }),
        decreases entries@.len() - i,
    {
        index.insert(entries[i].block_id.clone(), i);
        i = i + 1;
    }
    index
}

/// The logic entry that runs block `block_id`, through the index of block
/// ids.
pub fn lowered_logic_entry<'a, N>(
    index: &StringHashMap<usize>,
    entries: &'a Vec<LoweredLogicEntry<N>>,
    block_id: &str,
) -> (r: Option<&'a LoweredLogicEntry<N>>)
    ensures
        r == (if index@.contains_key(block_id@) && index@[block_id@] < entries@.len() {
            Some(&entries@[index@[block_id@] as int])
        } else {
            None
        }),
{
    match index.get(block_id) {
        Some(i) => {
            if *i < entries.len() {
                Some(&entries[*i])
            } else {
                None
            }
        },
        None => None,
    }
}

// ----------------------------------------------------------------------------
// Timelines

/// Position of the first `:` of `s` at or after `start`.
pub open spec fn spec_colon_from(s: Seq<char>, start: int) -> Option<int>
    decreases s.len() - start,
{
    if start < 0 || start >= s.len() {
        None
    } else if s[start] == ':' {
        Some(start)
    } else {
        spec_colon_from(s, start + 1)
    }
}

/// The timeline and moment a block id names: `timeline:`, the timeline's id,
/// `:`, and the moment, the id and the moment each a number that parses.
pub open spec fn spec_timeline_block(block_id: Seq<char>) -> Option<(usize, u32)> {
    if block_id.len() >= 9 && block_id.take(9) == "timeline:"@ {
        match spec_colon_from(block_id, 9) {
            Some(c) => match (spec_parse_usize(block_id.subrange(9, c)), spec_parse_u32(block_id.skip(c + 1))) {
                (Some(t), Some(m)) => Some((t, m)),
                _ => None,
            },
            None => None,
        }
    } else {
        None
    }
}

/// Whether `block_id` names a moment of timeline `timeline_id`.
pub open spec fn spec_names_timeline(block_id: Seq<char>, timeline_id: usize) -> bool {
    match spec_timeline_block(block_id) {
        Some((t, _)) => t == timeline_id,
        None => false,
    }
}

/// Position of the first entry of `entries` from `start` on whose moment is
/// later than `moment`; the length where there is none.
pub open spec fn spec_later_from(entries: Seq<(u32, usize)>, moment: u32, start: int) -> int
    decreases entries.len() - start,
{
    if start < 0 || start >= entries.len() {
        entries.len() as int
    } else if entries[start].0 > moment {
        start
    } else {
        spec_later_from(entries, moment, start + 1)
    }
}

/// `entries` with `entry` placed after every entry whose moment is not later
/// than its own.
pub open spec fn spec_insert_by_moment(entries: Seq<(u32, usize)>, entry: (u32, usize)) -> Seq<(u32, usize)> {
    entries.insert(spec_later_from(entries, entry.0, 0), entry)
}

/// The moments and entry indices of timeline `timeline_id`, ordered by moment,
/// entries of one moment in the order of `index_entries`.
pub open spec fn spec_timeline_entries(index_entries: Seq<(String, usize)>, timeline_id: usize) -> Seq<(u32, usize)>
    decreases index_entries.len(),
{
    if index_entries.len() == 0 {
        Seq::empty()
    } else {
        let rest = spec_timeline_entries(index_entries.drop_last(), timeline_id);
        match spec_timeline_block(index_entries.last().0@) {
            Some((t, m)) => if t == timeline_id {
                spec_insert_by_moment(rest, (m, index_entries.last().1))
            } else {
                rest
            },
            None => rest,
        }
    }
}

/// The timeline and moment `block_id` names, if it names one (see
/// [`spec_timeline_block`]).
pub fn parse_timeline_block(block_id: &str) -> (r: Option<(usize, u32)>)
    ensures
        r == spec_timeline_block(block_id@),
{
    proof {
        reveal_strlit("timeline:");
    }
    let n = char_len(block_id);
    if n < 9 {
        return None;
    }
    let prefix = block_id.get_char(0) == 't' && block_id.get_char(1) == 'i' && block_id.get_char(2) == 'm'
        && block_id.get_char(3) == 'e' && block_id.get_char(4) == 'l' && block_id.get_char(5) == 'i'
        && block_id.get_char(6) == 'n' && block_id.get_char(7) == 'e' && block_id.get_char(8) == ':';
    if !prefix {
        assert(block_id@.take(9) != "timeline:"@) by {
            if block_id@.take(9) == "timeline:"@ {
                assert(block_id@[0] == block_id@.take(9)[0]);
                assert(block_id@[1] == block_id@.take(9)[1]);
                assert(block_id@[2] == block_id@.take(9)[2]);
                assert(block_id@[3] == block_id@.take(9)[3]);
                assert(block_id@[4] == block_id@.take(9)[4]);
                assert(block_id@[5] == block_id@.take(9)[5]);
                assert(block_id@[6] == block_id@.take(9)[6]);
                assert(block_id@[7] == block_id@.take(9)[7]);
                assert(block_id@[8] == block_id@.take(9)[8]);
            }
        }
        return None;
    }
    assert(block_id@.take(9) =~= "timeline:"@);
    let mut c: usize = 9;
    while c < n && block_id.get_char(c) != ':'
        invariant
            n == block_id@.len(),
            9 <= c <= n,
            spec_colon_from(block_id@, 9) == spec_colon_from(block_id@, c as int),
        decreases n - c,
    {
        c = c + 1;
    }
    if c == n {
        return None;
    }
    let timeline = parse_usize_range(block_id, 9, c);
    let moment = parse_u32_range(block_id, c + 1, n);
    assert(block_id@.subrange(c + 1, n as int) =~= block_id@.skip(c + 1));
    match (timeline, moment) {
        (Some(t), Some(m)) => Some((t, m)),
        _ => None,
    }
}

/// Places `entry` in `entries` after every entry whose moment is not later
/// than its own.
fn insert_by_moment(entries: &mut Vec<(u32, usize)>, entry: (u32, usize))
    ensures
        final(entries)@ == spec_insert_by_moment(old(entries)@, entry),
{
    let mut p: usize = 0;
    while p < entries.len() && entries[p].0 <= entry.0
        invariant
            p <= entries@.len(),
            spec_later_from(entries@, entry.0, 0) == spec_later_from(entries@, entry.0, p as int),
        decreases entries@.len() - p,
    {
        p = p + 1;
    }
    entries.insert(p, entry);
}

/// The entries of each timeline the block ids of the logic index name, by
/// timeline id: each the moment and entry index, ordered by moment, and
/// entries of one moment in the order the index is walked, which
/// `index_entries` gives.
pub fn timeline_entries(index_entries: &Vec<(String, usize)>) -> (r: HashMap<usize, Vec<(u32, usize)>>)
    ensures
        forall|t: usize| #[trigger] r@.contains_key(t) <==> exists|i: int|
            0 <= i < index_entries@.len() && #[trigger] spec_names_timeline(index_entries@[i].0@, t),
        forall|t: usize| #[trigger] r@.contains_key(t) ==> r@[t]@ == spec_timeline_entries(index_entries@, t),
{
    broadcast use vstd::std_specs::hash::group_hash_axioms;
    let mut map: HashMap<usize, Vec<(u32, usize)>> = HashMap::new();
    let mut i: usize = 0;
    while i < index_entries.len()
        invariant
            i <= index_entries@.len(),
            forall|t: usize| #[trigger] map@.contains_key(t) <==> exists|k: int|
                0 <= k < i && #[trigger] spec_names_timeline(index_entries@[k].0@, t),
            forall|t: usize| #[trigger] map@.contains_key(t) ==> map@[t]@ == spec_timeline_entries(
                index_entries@.take(i as int),
                t,
            ),
            forall|t: usize| !map@.contains_key(t) ==> spec_timeline_entries(index_entries@.take(i as int), t)
                == Seq::<(u32, usize)>::empty(),
        decreases index_entries@.len() - i,
    {
        let ghost prefix = index_entries@.take(i as int);
        assert(index_entries@.take(i + 1).drop_last() =~= prefix);
        assert(index_entries@.take(i + 1).last() == index_entries@[i as int]);
        let parsed = parse_timeline_block(index_entries[i].0.as_str());
        match parsed {
            Some((t, m)) => {
                let mut list = match map.remove(&t) {
                    Some(l) => l,
                    None => Vec::new(),
                };
                insert_by_moment(&mut list, (m, index_entries[i].1));
                map.insert(t, list);
                assert forall|t3: usize| #[trigger] map@.contains_key(t3) <==> exists|k: int|
                    0 <= k < i + 1 && #[trigger] spec_names_timeline(index_entries@[k].0@, t3) by {
                    if t3 == t {
                        assert(spec_names_timeline(index_entries@[i as int].0@, t3));
                    } else if exists|k: int|
                        0 <= k < i + 1 && #[trigger] spec_names_timeline(index_entries@[k].0@, t3) {
                        let k = choose|k: int|
                            0 <= k < i + 1 && #[trigger] spec_names_timeline(index_entries@[k].0@, t3);
                        assert(k < i);
                    }
                }
            },
            None => {
                assert forall|t3: usize| #[trigger] map@.contains_key(t3) <==> exists|k: int|
                    0 <= k < i + 1 && #[trigger] spec_names_timeline(index_entries@[k].0@, t3) by {
                    if exists|k: int|
                        0 <= k < i + 1 && #[trigger] spec_names_timeline(index_entries@[k].0@, t3) {
                        let k = choose|k: int|
                            0 <= k < i + 1 && #[trigger] spec_names_timeline(index_entries@[k].0@, t3);
                        assert(k < i);
                    }
                }
            },
        }
        i = i + 1;
    }
    assert(index_entries@.take(i as int) =~= index_entries@);
    map
}

/// Placing an entry by its moment keeps a list ordered by moment.
proof fn lemma_insert_by_moment_sorted(entries: Seq<(u32, usize)>, entry: (u32, usize), start: int)
    requires
        forall|a: int, b: int| 0 <= a < b < entries.len() ==> entries[a].0 <= entries[b].0,
        0 <= start <= entries.len(),
        forall|a: int| 0 <= a < start ==> entries[a].0 <= entry.0,
    ensures
        start <= spec_later_from(entries, entry.0, start) <= entries.len(),
        forall|a: int| 0 <= a < spec_later_from(entries, entry.0, start) ==> entries[a].0 <= entry.0,
        forall|a: int| spec_later_from(entries, entry.0, start) <= a < entries.len() ==> entries[a].0 > entry.0,
    decreases entries.len() - start,
{
    if start < entries.len() && entries[start].0 <= entry.0 {
        lemma_insert_by_moment_sorted(entries, entry, start + 1);
    }
}

/// Every timeline's entries are ordered by moment.
pub proof fn law_timeline_entries_sorted(index_entries: Seq<(String, usize)>, timeline_id: usize)
    ensures
        forall|a: int, b: int|
            0 <= a < b < spec_timeline_entries(index_entries, timeline_id).len() ==> (
            #[trigger] spec_timeline_entries(index_entries, timeline_id)[a]).0 <= (
            #[trigger] spec_timeline_entries(index_entries, timeline_id)[b]).0,
    decreases index_entries.len(),
{
    if index_entries.len() > 0 {
        law_timeline_entries_sorted(index_entries.drop_last(), timeline_id);
        let rest = spec_timeline_entries(index_entries.drop_last(), timeline_id);
        match spec_timeline_block(index_entries.last().0@) {
            Some((t, m)) => if t == timeline_id {
                let entry = (m, index_entries.last().1);
                lemma_insert_by_moment_sorted(rest, entry, 0);
                let p = spec_later_from(rest, m, 0);
                let r = rest.insert(p, entry);
                assert forall|a: int, b: int| 0 <= a < b < r.len() implies #[trigger] r[a].0 <= #[trigger] r[b].0 by {
                    if a < p && b < p {
                        assert(r[a] == rest[a] && r[b] == rest[b]);
                    } else if a < p && b == p {
                        assert(r[a] == rest[a]);
                    } else if a < p {
                        assert(r[a] == rest[a] && r[b] == rest[b - 1]);
                    } else if a == p {
                        assert(r[b] == rest[b - 1]);
                    } else {
                        assert(r[a] == rest[a - 1] && r[b] == rest[b - 1]);
                    }
                }
            },
            None => {},
        }
    }
}

// ----------------------------------------------------------------------------
// Logic entries by object

/// The logic entry the index gives block `block_id`, if any.
pub open spec fn spec_logic_entry<N>(
    index: Map<Seq<char>, usize>,
    entries: Seq<LoweredLogicEntry<N>>,
    block_id: Seq<char>,
) -> Option<LoweredLogicEntry<N>> {
    if index.contains_key(block_id) && index[block_id] < entries.len() {
        Some(entries[index[block_id] as int])
    } else {
        None
    }
}

/// The logic entries of the blocks `block_ids`, in order, skipping blocks the
/// index does not give an entry.
pub open spec fn spec_entries_of_blocks<N>(
    index: Map<Seq<char>, usize>,
    entries: Seq<LoweredLogicEntry<N>>,
    block_ids: Seq<Seq<char>>,
) -> Seq<LoweredLogicEntry<N>>
    decreases block_ids.len(),
{
    if block_ids.len() == 0 {
        Seq::empty()
    } else {
        let rest = spec_entries_of_blocks(index, entries, block_ids.drop_last());
        match spec_logic_entry(index, entries, block_ids.last()) {
            Some(e) => rest.push(e),
            None => rest,
        }
    }
}

/// `r` holds references to exactly the entries of `expected`, in order.
pub open spec fn spec_refers_to<N>(r: Seq<&LoweredLogicEntry<N>>, expected: Seq<LoweredLogicEntry<N>>) -> bool {
    &&& r.len() == expected.len()
    &&& forall|j: int| 0 <= j < r.len() ==> *(#[trigger] r[j]) == expected[j]
}

/// The logic entries of the blocks `block_ids` (see [`spec_entries_of_blocks`]).
fn entries_of_blocks<'a, N>(
    index: &StringHashMap<usize>,
    entries: &'a Vec<LoweredLogicEntry<N>>,
    block_ids: &Vec<String>,
) -> (r: Vec<&'a LoweredLogicEntry<N>>)
    ensures
        spec_refers_to(r@, spec_entries_of_blocks(index@, entries@, spec_string_views(block_ids@))),
{
    let mut out: Vec<&'a LoweredLogicEntry<N>> = Vec::new();
    let mut i: usize = 0;
    while i < block_ids.len()
        invariant
            i <= block_ids@.len(),
            spec_refers_to(out@, spec_entries_of_blocks(index@, entries@, spec_string_views(block_ids@.take(i as int)))),
        decreases block_ids@.len() - i,
    {
        assert(spec_string_views(block_ids@.take(i + 1)).drop_last() =~= spec_string_views(block_ids@.take(i as int)));
        assert(spec_string_views(block_ids@.take(i + 1)).last() == block_ids@[i as int]@);
        match lowered_logic_entry(index, entries, block_ids[i].as_str()) {
            Some(e) => {
                out.push(e);
            },
            None => {},
        }
        i = i + 1;
    }
    assert(block_ids@.take(i as int) =~= block_ids@);
    out
}

/// The list of the last of the first `k` objects with id `id` whose list in
/// `lists` is not empty.
pub open spec fn spec_last_nonempty<N>(lists: Seq<Seq<LoweredLogicEntry<N>>>, objects: Seq<ObjectDefinition>, id: usize, k: int) -> Option<Seq<LoweredLogicEntry<N>>>
    decreases k,
{
    if k <= 0 {
        None
    } else if objects[k - 1].id == id && lists[k - 1].len() > 0 {
        Some(lists[k - 1])
    } else {
        spec_last_nonempty(lists, objects, id, k - 1)
    }
}

/// For each object, the logic entries of its events with tag `event_tag`.
pub open spec fn spec_tag_entry_lists<N>(
    objects: Seq<ObjectDefinition>,
    index: Map<Seq<char>, usize>,
    entries: Seq<LoweredLogicEntry<N>>,
    event_tag: Seq<char>,
) -> Seq<Seq<LoweredLogicEntry<N>>> {
    Seq::new(
        objects.len(),
        |k: int| spec_entries_of_blocks(index, entries, spec_tagged_blocks(objects[k].events@, event_tag)),
    )
}

/// For each object, the logic entries of the blocks `selector` selects for it.
pub open spec fn spec_selector_entry_lists<N>(
    objects: Seq<ObjectDefinition>,
    index: Map<Seq<char>, usize>,
    entries: Seq<LoweredLogicEntry<N>>,
    selector: RuntimeEventSelector,
) -> Seq<Seq<LoweredLogicEntry<N>>> {
    Seq::new(
        objects.len(),
        |k: int| {
            let (t, sub, tag) = spec_event_selector_parts(selector);
            spec_entries_of_blocks(
                index,
                entries,
                spec_event_blocks_from(objects, Some(objects[k].id), t, sub, tag, (objects.len() + 1) as nat),
            )
        },
    )
}

/// The map of object id to entries where each object with a non-empty list
/// was written in turn, over `lists`.
pub open spec fn spec_entries_by_object<N>(
    r: Map<usize, Vec<&LoweredLogicEntry<N>>>,
    objects: Seq<ObjectDefinition>,
    lists: Seq<Seq<LoweredLogicEntry<N>>>,
    k: int,
) -> bool {
    &&& forall|id: usize| #[trigger] r.contains_key(id) <==> spec_last_nonempty(lists, objects, id, k) is Some
    &&& forall|id: usize| #[trigger] r.contains_key(id) ==> spec_refers_to(
        r[id]@,
        spec_last_nonempty(lists, objects, id, k)->0,
    )
}

/// Writes `list` for `id` where it is not empty, keeping the map of object
/// entries as written object by object.
proof fn lemma_entries_by_object_step<N>(
    before: Map<usize, Vec<&LoweredLogicEntry<N>>>,
    after: Map<usize, Vec<&LoweredLogicEntry<N>>>,
    objects: Seq<ObjectDefinition>,
    lists: Seq<Seq<LoweredLogicEntry<N>>>,
    k: int,
    list: Vec<&LoweredLogicEntry<N>>,
)
    requires
        0 <= k < objects.len(),
        spec_entries_by_object(before, objects, lists, k),
        spec_refers_to(list@, lists[k]),
        after == (if list@.len() > 0 { before.insert(objects[k].id, list) } else { before }),
    ensures
        spec_entries_by_object(after, objects, lists, k + 1),
{
}

/// For every object with logic entries for its events with tag `event_tag`,
/// those entries, from the last object with that id that has any.
pub fn lowered_event_entries_by_tag_for_runtime<'a, N>(
    package: &RuntimePackage,
    index: &StringHashMap<usize>,
    entries: &'a Vec<LoweredLogicEntry<N>>,
    event_tag: &str,
) -> (r: HashMap<usize, Vec<&'a LoweredLogicEntry<N>>>)
    ensures
        spec_entries_by_object(
            r@,
            package.objects@,
            spec_tag_entry_lists(package.objects@, index@, entries@, event_tag@),
            package.objects@.len() as int,
        ),
{
    broadcast use vstd::std_specs::hash::group_hash_axioms;
    let ghost lists = spec_tag_entry_lists(package.objects@, index@, entries@, event_tag@);
    let mut map: HashMap<usize, Vec<&'a LoweredLogicEntry<N>>> = HashMap::new();
    let mut k: usize = 0;
    while k < package.objects.len()
        invariant
            k <= package.objects@.len(),
            lists == spec_tag_entry_lists(package.objects@, index@, entries@, event_tag@),
            spec_entries_by_object(map@, package.objects@, lists, k as int),
        decreases package.objects@.len() - k,
    {
        let blocks = tagged_blocks(&package.objects[k].events, event_tag);
        let list = entries_of_blocks(index, entries, &blocks);
        let ghost before = map@;
        let ghost snapshot = list;
        if list.len() > 0 {
            map.insert(package.objects[k].id, list);
        }
        proof {
            lemma_entries_by_object_step(before, map@, package.objects@, lists, k as int, snapshot);
        }
        k = k + 1;
    }
    map
}

/// For every object with logic entries for the blocks `selector` selects for
/// it, those entries, from the last object with that id that has any.
pub fn lowered_event_entries_by_selector<'a, N>(
    package: &RuntimePackage,
    index: &StringHashMap<usize>,
    entries: &'a Vec<LoweredLogicEntry<N>>,
    selector: RuntimeEventSelector,
) -> (r: HashMap<usize, Vec<&'a LoweredLogicEntry<N>>>)
    requires
        spec_parent_chains_terminate(package.objects@),
    ensures
        spec_entries_by_object(
            r@,
            package.objects@,
            spec_selector_entry_lists(package.objects@, index@, entries@, selector),
            package.objects@.len() as int,
        ),
{
    broadcast use vstd::std_specs::hash::group_hash_axioms;
    let ghost lists = spec_selector_entry_lists(package.objects@, index@, entries@, selector);
    let mut map: HashMap<usize, Vec<&'a LoweredLogicEntry<N>>> = HashMap::new();
    let mut k: usize = 0;
    while k < package.objects.len()
        invariant
            k <= package.objects@.len(),
            spec_parent_chains_terminate(package.objects@),
            lists == spec_selector_entry_lists(package.objects@, index@, entries@, selector),
            spec_entries_by_object(map@, package.objects@, lists, k as int),
        decreases package.objects@.len() - k,
    {
        let blocks = object_event_block_ids(package, package.objects[k].id, selector);
        let list = entries_of_blocks(index, entries, &blocks);
        let ghost before = map@;
        let ghost snapshot = list;
        if list.len() > 0 {
            map.insert(package.objects[k].id, list);
        }
        proof {
            lemma_entries_by_object_step(before, map@, package.objects@, lists, k as int, snapshot);
        }
        k = k + 1;
    }
    map
}

/// The entry of the last of the first `k` script blocks named `name` whose
/// block the index gives an entry.
pub open spec fn spec_last_script_entry<N>(
    scripts: Seq<ScriptBlock>,
    index: Map<Seq<char>, usize>,
    entries: Seq<LoweredLogicEntry<N>>,
    name: Seq<char>,
    k: int,
) -> Option<LoweredLogicEntry<N>>
    decreases k,
{
    if k <= 0 {
        None
    } else {
        let block = scripts[k - 1];
        if block.kind@ == "script"@ && block.name@ == name && spec_logic_entry(index, entries, block.id@) is Some {
            spec_logic_entry(index, entries, block.id@)
        } else {
            spec_last_script_entry(scripts, index, entries, name, k - 1)
        }
    }
}

/// The logic entry of every script of the package, by script name: the entry
/// of the last script block of that name that the index gives one.
pub fn lowered_script_entries<'a, N>(
    package: &RuntimePackage,
    index: &StringHashMap<usize>,
    entries: &'a Vec<LoweredLogicEntry<N>>,
) -> (r: StringHashMap<&'a LoweredLogicEntry<N>>)
    ensures
        forall|name: Seq<char>| #[trigger] r@.contains_key(name) <==> spec_last_script_entry(
            package.scripts@,
            index@,
            entries@,
            name,
            package.scripts@.len() as int,
        ) is Some,
        forall|name: Seq<char>| #[trigger] r@.contains_key(name) ==> Some(*r@[name]) == spec_last_script_entry(
            package.scripts@,
            index@,
            entries@,
            name,
            package.scripts@.len() as int,
        ),
{
    let scripts = &package.scripts;
    let mut map: StringHashMap<&'a LoweredLogicEntry<N>> = StringHashMap::new();
    let mut k: usize = 0;
    while k < scripts.len()
        invariant
            scripts@ == package.scripts@,
            k <= scripts@.len(),
            forall|name: Seq<char>| #[trigger] map@.contains_key(name) <==> spec_last_script_entry(
                scripts@,
                index@,
                entries@,
                name,
                k as int,
            ) is Some,
            forall|name: Seq<char>| #[trigger] map@.contains_key(name) ==> Some(*map@[name])
                == spec_last_script_entry(scripts@, index@, entries@, name, k as int),
        decreases scripts@.len() - k,
    {
        let block = &scripts[k];
        if str_eq(block.kind.as_str(), "script") {
            match lowered_logic_entry(index, entries, block.id.as_str()) {
                Some(entry) => {
                    map.insert(block.name.clone(), entry);
                },
                None => {},
            }
        }
        k = k + 1;
    }
    map
}

/// The logic entries of the blocks `selector` selects for an instance of
/// `object_id` (see [`object_event_block_ids`]).
pub open spec fn spec_instance_entries<N>(
    objects: Seq<ObjectDefinition>,
    index: Map<Seq<char>, usize>,
    entries: Seq<LoweredLogicEntry<N>>,
    object_id: usize,
    selector: RuntimeEventSelector,
) -> Seq<LoweredLogicEntry<N>> {
    let (t, sub, tag) = spec_event_selector_parts(selector);
    spec_entries_of_blocks(
        index,
        entries,
        spec_event_blocks_from(objects, Some(object_id), t, sub, tag, (objects.len() + 1) as nat),
    )
}

/// The positions, in order, of the first `k` instances that are alive and have
/// logic entries for `selector`.
pub open spec fn spec_dispatch_positions<N>(
    instances: Seq<RuntimeInstance<N>>,
    objects: Seq<ObjectDefinition>,
    index: Map<Seq<char>, usize>,
    entries: Seq<LoweredLogicEntry<N>>,
    selector: RuntimeEventSelector,
    k: int,
) -> Seq<usize>
    decreases k,
{
    if k <= 0 {
        Seq::empty()
    } else {
        let rest = spec_dispatch_positions(instances, objects, index, entries, selector, k - 1);
        if instances[k - 1].alive && spec_instance_entries(objects, index, entries, instances[k - 1].object_id, selector).len()
            > 0 {
            rest.push((k - 1) as usize)
        } else {
            rest
        }
    }
}

/// `r` lists the instances of `positions`, in order, each with its logic
/// entries for `selector`.
pub open spec fn spec_dispatches<N>(
    r: Seq<(usize, Vec<&LoweredLogicEntry<N>>)>,
    positions: Seq<usize>,
    instances: Seq<RuntimeInstance<N>>,
    objects: Seq<ObjectDefinition>,
    index: Map<Seq<char>, usize>,
    entries: Seq<LoweredLogicEntry<N>>,
    selector: RuntimeEventSelector,
) -> bool {
    &&& r.len() == positions.len()
    &&& forall|j: int|
        0 <= j < r.len() ==> (#[trigger] r[j]).0 == positions[j] && spec_refers_to(
            r[j].1@,
            spec_instance_entries(objects, index, entries, instances[positions[j] as int].object_id, selector),
        )
}

/// The event dispatches of a pass over the room: each live instance, in room
/// order, whose object has logic entries for the blocks `selector` selects
/// for it, with those entries.
pub fn event_dispatches<'a, N>(
    package: &RuntimePackage,
    instances: &Vec<RuntimeInstance<N>>,
    index: &StringHashMap<usize>,
    entries: &'a Vec<LoweredLogicEntry<N>>,
    selector: RuntimeEventSelector,
) -> (r: Vec<(usize, Vec<&'a LoweredLogicEntry<N>>)>)
    requires
        forall|i: int|
            0 <= i < instances@.len() && (#[trigger] instances@[i]).alive ==> spec_chain_ends(
                package.objects@,
                instances@[i].object_id,
            ),
    ensures
        spec_dispatches(
            r@,
            spec_dispatch_positions(instances@, package.objects@, index@, entries@, selector, instances@.len() as int),
            instances@,
            package.objects@,
            index@,
            entries@,
            selector,
        ),
{
    let mut out: Vec<(usize, Vec<&'a LoweredLogicEntry<N>>)> = Vec::new();
    let mut i: usize = 0;
    while i < instances.len()
        invariant
            i <= instances@.len(),
            forall|i: int|
                0 <= i < instances@.len() && (#[trigger] instances@[i]).alive ==> spec_chain_ends(
                    package.objects@,
                    instances@[i].object_id,
                ),
            spec_dispatches(
                out@,
                spec_dispatch_positions(instances@, package.objects@, index@, entries@, selector, i as int),
                instances@,
                package.objects@,
                index@,
                entries@,
                selector,
            ),
        decreases instances@.len() - i,
    {
        let ghost positions = spec_dispatch_positions(instances@, package.objects@, index@, entries@, selector, i as int);
        if instances[i].alive {
            let blocks = object_event_block_ids(package, instances[i].object_id, selector);
            let list = entries_of_blocks(index, entries, &blocks);
            if list.len() > 0 {
                let ghost before = out@;
                out.push((i, list));
                proof {
                    let next = positions.push(i);
                    assert forall|j: int| 0 <= j < out@.len() implies (#[trigger] out@[j]).0 == next[j] && spec_refers_to(
                        out@[j].1@,
                        spec_instance_entries(package.objects@, index@, entries@, instances@[next[j] as int].object_id, selector),
                    ) by {
                        if j < before.len() {
                            assert(out@[j] == before[j]);
                        }
                    }
                }
            }
        }
        i = i + 1;
    }
    out
}

} // verus!
