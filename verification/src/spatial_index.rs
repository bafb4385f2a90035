//! The collision spatial index: the live instances of a room filed under the
//! grid cells their bounding boxes cover, by object and for solid instances,
//! and the candidates it gives for a query box.

use std::collections::HashMap;

use vstd::prelude::*;

use crate::event_dispatch::{cells_for_bounds, spec_cell_row, spec_cell_rows, spec_cells_for_bounds, spec_cell_of};
use crate::eval_context::slice_contains;
use crate::model::{RuntimeInstance, RuntimeRoomState};

verus! {

/// A bounding box: left, top, right and bottom edges, right and bottom
/// exclusive.
pub type Bounds = (i32, i32, i32, i32);

/// The key a cell is filed under: its column and row, each offset to be
/// non-negative, packed into one number.
pub open spec fn spec_cell_key(c: (i32, i32)) -> u64 {
    ((c.0 - i32::MIN) * 0x1_0000_0000 + (c.1 - i32::MIN)) as u64
}

/// The key of a cell (see [`spec_cell_key`]).
fn cell_key(c: (i32, i32)) -> (r: u64)
    ensures
        r == spec_cell_key(c),
{
    let kx: u64 = (c.0 as i64 - i32::MIN as i64) as u64;
    let ky: u64 = (c.1 as i64 - i32::MIN as i64) as u64;
    assert(kx * 0x1_0000_0000 + ky <= u64::MAX) by (nonlinear_arith)
        requires
            kx < 0x1_0000_0000,
            ky < 0x1_0000_0000,
    ;
    kx * 0x1_0000_0000 + ky
}

/// Different cells have different keys.
pub proof fn lemma_cell_key_injective(a: (i32, i32), b: (i32, i32))
    requires
        spec_cell_key(a) == spec_cell_key(b),
    ensures
        a == b,
{
    let ax: int = a.0 - i32::MIN;
    let ay: int = a.1 - i32::MIN;
    let bx: int = b.0 - i32::MIN;
    let by: int = b.1 - i32::MIN;
    assert(ax * 0x1_0000_0000 + ay == bx * 0x1_0000_0000 + by);
    assert(ax == bx && ay == by) by (nonlinear_arith)
        requires
            0 <= ay < 0x1_0000_0000,
            0 <= by < 0x1_0000_0000,
            0 <= ax,
            0 <= bx,
            ax * 0x1_0000_0000 + ay == bx * 0x1_0000_0000 + by,
    ;
}

/// Whether a bounding box is one the index can take: its right and bottom
/// edges are above the smallest `i32`, as every box of an instance is.
pub open spec fn spec_valid_bounds(b: Bounds) -> bool {
    b.2 > i32::MIN && b.3 > i32::MIN
}

/// Whether the box covers the cell filed under `key`.
pub open spec fn spec_covers(b: Bounds, key: u64) -> bool {
    exists|k: int|
        0 <= k < spec_cells_for_bounds(b.0, b.1, b.2, b.3).len() && #[trigger] spec_cell_key(
            spec_cells_for_bounds(b.0, b.1, b.2, b.3)[k],
        ) == key
}

/// The positions, in order, of the first `n` instances that are alive, of
/// object `object_id`, and whose box covers the cell under `key`.
pub open spec fn spec_object_members<N>(
    instances: Seq<RuntimeInstance<N>>,
    bounds: Seq<Bounds>,
    object_id: usize,
    key: u64,
    n: nat,
) -> Seq<usize>
    decreases n,
{
    if n == 0 {
        Seq::empty()
    } else {
        let rest = spec_object_members(instances, bounds, object_id, key, (n - 1) as nat);
        let i = n - 1;
        if instances[i].alive && instances[i].object_id == object_id && spec_covers(bounds[i], key) {
            rest.push(i as usize)
        } else {
            rest
        }
    }
}

/// The positions, in order, of the first `n` instances that are alive, solid,
/// and whose box covers the cell under `key`.
pub open spec fn spec_solid_members<N>(
    instances: Seq<RuntimeInstance<N>>,
    bounds: Seq<Bounds>,
    key: u64,
    n: nat,
) -> Seq<usize>
    decreases n,
{
    if n == 0 {
        Seq::empty()
    } else {
        let rest = spec_solid_members(instances, bounds, key, (n - 1) as nat);
        let i = n - 1;
        if instances[i].alive && instances[i].solid && spec_covers(bounds[i], key) {
            rest.push(i as usize)
        } else {
            rest
        }
    }
}

/// The list filed under `key` in `cells`, empty where there is none.
pub open spec fn spec_cell_list(cells: Map<u64, Vec<usize>>, key: u64) -> Seq<usize> {
    if cells.contains_key(key) {
        cells[key]@
    } else {
        Seq::empty()
    }
}

/// The live instances of a room by the grid cells their boxes cover: by
/// object, and for solid instances.
pub struct RuntimeCollisionSpatialIndex {
    cells_by_object_id: HashMap<usize, HashMap<u64, Vec<usize>>>,
    solid_cells: HashMap<u64, Vec<usize>>,
}

impl RuntimeCollisionSpatialIndex {
    /// The cells of object `object_id`, where it has any.
    pub closed spec fn object_cells(&self, object_id: usize) -> Option<Map<u64, Vec<usize>>> {
        if self.cells_by_object_id@.contains_key(object_id) {
            Some(self.cells_by_object_id@[object_id]@)
        } else {
            None
        }
    }

    /// The instances of object `object_id` filed under `key`.
    pub open spec fn object_cell(&self, object_id: usize, key: u64) -> Seq<usize> {
        match self.object_cells(object_id) {
            Some(cells) => spec_cell_list(cells, key),
            None => Seq::empty(),
        }
    }

    /// The solid cells.
    pub closed spec fn solid(&self) -> Map<u64, Vec<usize>> {
        self.solid_cells@
    }

    /// The index built from `instances` with their boxes `bounds`: each cell
    /// lists, in order, the live instances of an object, and the live solid
    /// instances, whose boxes cover it.
    pub open spec fn spec_indexes<N>(&self, instances: Seq<RuntimeInstance<N>>, bounds: Seq<Bounds>) -> bool {
        &&& forall|o: usize, key: u64| #[trigger] self.object_cell(o, key) == spec_object_members(
            instances,
            bounds,
            o,
            key,
            instances.len(),
        )
        &&& forall|key: u64| #[trigger] spec_cell_list(self.solid(), key) == spec_solid_members(
            instances,
            bounds,
            key,
            instances.len(),
        )
    }
}

/// The cells of a row range lie in the range, each once.
proof fn lemma_cell_rows_distinct(left_cell: int, right_cell: int, top_cell: int, end_y: int)
    requires
        i32::MIN <= left_cell <= right_cell <= i32::MAX,
        i32::MIN <= top_cell,
        end_y - 1 <= i32::MAX,
    ensures
        forall|k: int|
            0 <= k < spec_cell_rows(left_cell, right_cell, top_cell, end_y).len() ==> top_cell <= (
            #[trigger] spec_cell_rows(left_cell, right_cell, top_cell, end_y)[k]).1 < end_y,
        forall|k: int, l: int|
            0 <= k < l < spec_cell_rows(left_cell, right_cell, top_cell, end_y).len() ==> #[trigger] spec_cell_rows(
                left_cell,
                right_cell,
                top_cell,
                end_y,
            )[k] != #[trigger] spec_cell_rows(left_cell, right_cell, top_cell, end_y)[l],
    decreases end_y - top_cell,
{
    if end_y > top_cell {
        lemma_cell_rows_distinct(left_cell, right_cell, top_cell, end_y - 1);
        let prev = spec_cell_rows(left_cell, right_cell, top_cell, end_y - 1);
        let row = spec_cell_row(end_y - 1, left_cell, right_cell);
        let rows = spec_cell_rows(left_cell, right_cell, top_cell, end_y);
        assert(rows == prev + row);
        assert forall|k: int| 0 <= k < rows.len() implies top_cell <= (#[trigger] rows[k]).1 < end_y by {
            if k >= prev.len() {
                assert(rows[k] == row[k - prev.len()]);
            }
        }
        assert forall|k: int, l: int| 0 <= k < l < rows.len() implies #[trigger] rows[k] != #[trigger] rows[l] by {
            if l >= prev.len() {
                assert(rows[l] == row[l - prev.len()]);
                assert(rows[l].1 == end_y - 1);
                if k >= prev.len() {
                    assert(rows[k] == row[k - prev.len()]);
                    assert(rows[k].0 == left_cell + (k - prev.len()));
                    assert(rows[l].0 == left_cell + (l - prev.len()));
                } else {
                    assert(rows[k] == prev[k]);
                    assert(prev[k].1 < end_y - 1);
                }
            } else {
                assert(rows[k] == prev[k] && rows[l] == prev[l]);
            }
        }
    }
}

/// The cells of a box are listed once each.
pub proof fn lemma_cells_for_bounds_distinct(b: Bounds)
    ensures
        forall|k: int, l: int|
            0 <= k < l < spec_cells_for_bounds(b.0, b.1, b.2, b.3).len() ==> #[trigger] spec_cells_for_bounds(
                b.0,
                b.1,
                b.2,
                b.3,
            )[k] != #[trigger] spec_cells_for_bounds(b.0, b.1, b.2, b.3)[l],
{
    let (left, top, right, bottom) = b;
    let r: int = if right - 1 > left { right - 1 } else { left as int };
    let bt: int = if bottom - 1 > top { bottom - 1 } else { top as int };
    assert(-33554432 <= spec_cell_of(left as int) <= 33554432 && -33554432 <= spec_cell_of(r) <= 33554432)
        by (nonlinear_arith)
        requires
            i32::MIN <= left <= i32::MAX,
            i32::MIN <= r <= i32::MAX,
    ;
    assert(-33554432 <= spec_cell_of(top as int) <= 33554432 && -33554432 <= spec_cell_of(bt) <= 33554432)
        by (nonlinear_arith)
        requires
            i32::MIN <= top <= i32::MAX,
            i32::MIN <= bt <= i32::MAX,
    ;
    lemma_cell_rows_distinct(
        spec_cell_of(left as int),
        spec_cell_of(r),
        spec_cell_of(top as int),
        spec_cell_of(bt) + 1,
    );
}

/// The cells of a box are filed under different keys.
pub proof fn lemma_cell_keys_distinct(b: Bounds)
    ensures
        forall|k: int, l: int|
            0 <= k < l < spec_cells_for_bounds(b.0, b.1, b.2, b.3).len() ==> #[trigger] spec_cell_key(
                spec_cells_for_bounds(b.0, b.1, b.2, b.3)[k],
            ) != #[trigger] spec_cell_key(spec_cells_for_bounds(b.0, b.1, b.2, b.3)[l]),
{
    lemma_cells_for_bounds_distinct(b);
    let cells = spec_cells_for_bounds(b.0, b.1, b.2, b.3);
    assert forall|k: int, l: int| 0 <= k < l < cells.len() implies #[trigger] spec_cell_key(cells[k])
        != #[trigger] spec_cell_key(cells[l]) by {
        if spec_cell_key(cells[k]) == spec_cell_key(cells[l]) {
            lemma_cell_key_injective(cells[k], cells[l]);
        }
    }
}

/// Whether one of the first `j` cells is filed under `key`.
pub open spec fn spec_prefix_has_key(cells: Seq<(i32, i32)>, j: int, key: u64) -> bool {
    exists|k: int| 0 <= k < j && #[trigger] spec_cell_key(cells[k]) == key
}

/// The list filed under `key` for object `object_id` in a map of object cells.
pub open spec fn spec_object_lookup(
    by_object: Map<usize, HashMap<u64, Vec<usize>>>,
    object_id: usize,
    key: u64,
) -> Seq<usize> {
    if by_object.contains_key(object_id) {
        spec_cell_list(by_object[object_id]@, key)
    } else {
        Seq::empty()
    }
}

/// `list` with `i` appended where `add` holds.
pub open spec fn spec_push_if(list: Seq<usize>, add: bool, i: usize) -> Seq<usize> {
    if add { list.push(i) } else { list }
}

/// Appends `i` to the list filed under `key`.
fn file_under(cells: &mut HashMap<u64, Vec<usize>>, key: u64, i: usize)
    ensures
        forall|k: u64| #[trigger] spec_cell_list(final(cells)@, k) == if k == key {
            spec_cell_list(old(cells)@, k).push(i)
        } else {
            spec_cell_list(old(cells)@, k)
        },
{
    broadcast use vstd::std_specs::hash::group_hash_axioms;
    let mut list = match cells.remove(&key) {
        Some(l) => l,
        None => Vec::new(),
    };
    list.push(i);
    cells.insert(key, list);
}

/// The collision spatial index of the room's live instances, given the box
/// of each instance at its position.
pub fn runtime_collision_spatial_index<N>(room: &RuntimeRoomState<N>, bounds: &Vec<Bounds>) -> (r:
    RuntimeCollisionSpatialIndex)
    requires
        bounds@.len() == room.instances@.len(),
        forall|i: int| 0 <= i < bounds@.len() ==> spec_valid_bounds(#[trigger] bounds@[i]),
    ensures
        r.spec_indexes(room.instances@, bounds@),
{
    broadcast use vstd::std_specs::hash::group_hash_axioms;
    let ghost instances = room.instances@;
    let mut by_object: HashMap<usize, HashMap<u64, Vec<usize>>> = HashMap::new();
    let mut solid: HashMap<u64, Vec<usize>> = HashMap::new();
    let n = room.instances.len();
    let mut i: usize = 0;
    while i < n
        invariant
            n == instances.len(),
            instances == room.instances@,
            bounds@.len() == n,
            forall|q: int| 0 <= q < bounds@.len() ==> spec_valid_bounds(#[trigger] bounds@[q]),
            i <= n,
            forall|o: usize, key: u64| #[trigger] spec_object_lookup(by_object@, o, key) == spec_object_members(
                instances,
                bounds@,
                o,
                key,
                i as nat,
            ),
            forall|key: u64| #[trigger] spec_cell_list(solid@, key) == spec_solid_members(
                instances,
                bounds@,
                key,
                i as nat,
            ),
        decreases n - i,
    {
        let instance = &room.instances[i];
        if instance.alive {
            let b = bounds[i];
            assert(spec_valid_bounds(bounds@[i as int]));
            let cells = cells_for_bounds(b.0, b.1, b.2, b.3);
            proof {
                lemma_cell_keys_distinct(b);
            }
            let o = instance.object_id;
            let is_solid = instance.solid;
            let ghost before = by_object@;
            let mut object_cells = match by_object.remove(&o) {
                Some(m) => m,
                None => HashMap::new(),
            };
            let ghost others = by_object@;
            assert(others == before.remove(o));
            assert forall|key: u64| #[trigger] spec_cell_list(object_cells@, key) == spec_push_if(
                spec_object_members(instances, bounds@, o, key, i as nat),
                spec_prefix_has_key(cells@, 0, key),
                i,
            ) by {
                assert(spec_cell_list(object_cells@, key) == spec_object_lookup(before, o, key));
            }
            let mut j: usize = 0;
            while j < cells.len()
                invariant
                    cells@ == spec_cells_for_bounds(b.0, b.1, b.2, b.3),
                    forall|k: int, l: int| 0 <= k < l < cells@.len() ==> #[trigger] spec_cell_key(cells@[k])
                        != #[trigger] spec_cell_key(cells@[l]),
                    j <= cells@.len(),
                    by_object@ == others,
                    !others.contains_key(o),
                    forall|key: u64| #[trigger] spec_cell_list(object_cells@, key) == spec_push_if(
                        spec_object_members(instances, bounds@, o, key, i as nat),
                        spec_prefix_has_key(cells@, j as int, key),
                        i,
                    ),
                    forall|key: u64| #[trigger] spec_cell_list(solid@, key) == spec_push_if(
                        spec_solid_members(instances, bounds@, key, i as nat),
                        is_solid && spec_prefix_has_key(cells@, j as int, key),
                        i,
                    ),
                decreases cells@.len() - j,
            {
                let key = cell_key(cells[j]);
                assert(!spec_prefix_has_key(cells@, j as int, key)) by {
                    if spec_prefix_has_key(cells@, j as int, key) {
                        let k = choose|k: int| 0 <= k < j && #[trigger] spec_cell_key(cells@[k]) == key;
                        assert(spec_cell_key(cells@[k]) != spec_cell_key(cells@[j as int]));
                    }
                }
                assert forall|k2: u64| k2 != key implies spec_prefix_has_key(cells@, j + 1, k2)
                    == spec_prefix_has_key(cells@, j as int, k2) by {
                    if spec_prefix_has_key(cells@, j + 1, k2) {
                        let k = choose|k: int| 0 <= k < j + 1 && #[trigger] spec_cell_key(cells@[k]) == k2;
                        assert(k < j);
                    }
                }
                assert(spec_prefix_has_key(cells@, j + 1, key)) by {
                    assert(spec_cell_key(cells@[j as int]) == key);
                }
                file_under(&mut object_cells, key, i);
                if is_solid {
                    file_under(&mut solid, key, i);
                }
                j = j + 1;
            }
            by_object.insert(o, object_cells);
            proof {
                assert forall|key: u64| spec_prefix_has_key(cells@, cells@.len() as int, key) == spec_covers(b, key) by {
                }
                assert forall|o2: usize, key: u64| #[trigger] spec_object_lookup(by_object@, o2, key)
                    == spec_object_members(instances, bounds@, o2, key, (i + 1) as nat) by {
                    if o2 != o {
                        assert(spec_object_lookup(by_object@, o2, key) == spec_object_lookup(others, o2, key));
                        assert(spec_object_lookup(others, o2, key) == spec_object_lookup(before, o2, key));
                    } else {
                        assert(spec_object_lookup(by_object@, o2, key) == spec_cell_list(object_cells@, key));
                    }
                }
            }
        } else {
            assert forall|o2: usize, key: u64| #[trigger] spec_object_lookup(by_object@, o2, key)
                == spec_object_members(instances, bounds@, o2, key, (i + 1) as nat) by {
            }
            assert forall|key: u64| #[trigger] spec_cell_list(solid@, key)
                == spec_solid_members(instances, bounds@, key, (i + 1) as nat) by {
            }
        }
        i = i + 1;
    }
    let r = RuntimeCollisionSpatialIndex { cells_by_object_id: by_object, solid_cells: solid };
    assert forall|o: usize, key: u64| #[trigger] r.object_cell(o, key) == spec_object_lookup(by_object@, o, key) by {
    }
    r
}

// ----------------------------------------------------------------------------
// Queries

/// `acc` followed by the elements of `xs` it does not hold yet, each once, in
/// order.
pub open spec fn spec_add_unique(acc: Seq<usize>, xs: Seq<usize>) -> Seq<usize>
    decreases xs.len(),
{
    if xs.len() == 0 {
        acc
    } else {
        let a = spec_add_unique(acc, xs.drop_last());
        if a.contains(xs.last()) {
            a
        } else {
            a.push(xs.last())
        }
    }
}

/// The instances filed under the cells of `query`, in the order of the cells
/// and of each cell's list, each once.
pub open spec fn spec_candidates_from(cells: Map<u64, Vec<usize>>, query: Seq<(i32, i32)>) -> Seq<usize>
    decreases query.len(),
{
    if query.len() == 0 {
        Seq::empty()
    } else {
        spec_add_unique(
            spec_candidates_from(cells, query.drop_last()),
            spec_cell_list(cells, spec_cell_key(query.last())),
        )
    }
}

/// The instances filed under the cells the box `query` covers (see
/// [`spec_candidates_from`]).
pub fn candidate_indices_from_cells(cells: &HashMap<u64, Vec<usize>>, query: Bounds) -> (r: Vec<usize>)
    requires
        spec_valid_bounds(query),
    ensures
        r@ == spec_candidates_from(cells@, spec_cells_for_bounds(query.0, query.1, query.2, query.3)),
{
    broadcast use vstd::std_specs::hash::group_hash_axioms;
    let mut candidates: Vec<usize> = Vec::new();
    let query_cells = cells_for_bounds(query.0, query.1, query.2, query.3);
    let mut c: usize = 0;
    while c < query_cells.len()
        invariant
            c <= query_cells@.len(),
            candidates@ == spec_candidates_from(cells@, query_cells@.take(c as int)),
        decreases query_cells@.len() - c,
    {
        assert(query_cells@.take(c + 1).drop_last() =~= query_cells@.take(c as int));
        let key = cell_key(query_cells[c]);
        match cells.get(&key) {
            Some(list) => {
                let ghost start = candidates@;
                let mut k: usize = 0;
                while k < list.len()
                    invariant
                        k <= list@.len(),
                        candidates@ == spec_add_unique(start, list@.take(k as int)),
                    decreases list@.len() - k,
                {
                    assert(list@.take(k + 1).drop_last() =~= list@.take(k as int));
                    let index = list[k];
                    if !slice_contains(candidates.as_slice(), index) {
                        candidates.push(index);
                    }
                    k = k + 1;
                }
                assert(list@.take(k as int) =~= list@);
            },
            None => {
                assert(spec_add_unique(candidates@, Seq::<usize>::empty()) == candidates@);
            },
        }
        c = c + 1;
    }
    assert(query_cells@.take(c as int) =~= query_cells@);
    candidates
}

impl RuntimeCollisionSpatialIndex {
    /// The live instances of object `object_id` filed under the cells the box
    /// `query` covers, each once.
    pub fn candidate_indices(&self, object_id: usize, query: Bounds) -> (r: Vec<usize>)
        requires
            spec_valid_bounds(query),
        ensures
            r@ == match self.object_cells(object_id) {
                Some(cells) => spec_candidates_from(cells, spec_cells_for_bounds(query.0, query.1, query.2, query.3)),
                None => Seq::empty(),
            },
    {
        broadcast use vstd::std_specs::hash::group_hash_axioms;
        match self.cells_by_object_id.get(&object_id) {
            Some(cells) => candidate_indices_from_cells(cells, query),
            None => Vec::new(),
        }
    }

    /// The live solid instances filed under the cells the box `query` covers,
    /// each once.
    pub fn solid_candidate_indices(&self, query: Bounds) -> (r: Vec<usize>)
        requires
            spec_valid_bounds(query),
        ensures
            r@ == spec_candidates_from(self.solid(), spec_cells_for_bounds(query.0, query.1, query.2, query.3)),
    {
        candidate_indices_from_cells(&self.solid_cells, query)
    }
}

// ----------------------------------------------------------------------------
// Laws of the index

proof fn lemma_add_unique_members(acc: Seq<usize>, xs: Seq<usize>, x: usize)
    ensures
        spec_add_unique(acc, xs).contains(x) <==> (acc.contains(x) || xs.contains(x)),
    decreases xs.len(),
{
    if xs.len() > 0 {
        lemma_add_unique_members(acc, xs.drop_last(), x);
        if xs.drop_last().contains(x) {
            let k = choose|k: int| 0 <= k < xs.drop_last().len() && xs.drop_last()[k] == x;
            assert(xs[k] == x);
        }
        if xs.contains(x) && x != xs.last() {
            let k = choose|k: int| 0 <= k < xs.len() && xs[k] == x;
            assert(xs.drop_last()[k] == x);
        }
        let a = spec_add_unique(acc, xs.drop_last());
        if !a.contains(xs.last()) && x == xs.last() {
            assert(a.push(xs.last())[a.len() as int] == x);
        }
        if !a.contains(xs.last()) && a.push(xs.last()).contains(x) && x != xs.last() {
            let pushed = a.push(xs.last());
            let k = choose|k: int| 0 <= k < pushed.len() && #[trigger] pushed[k] == x;
            assert(a[k] == x);
        }
        if !a.contains(xs.last()) && a.contains(x) {
            let k = choose|k: int| 0 <= k < a.len() && a[k] == x;
            assert(a.push(xs.last())[k] == x);
        }
    }
}

/// An instance is a candidate of a query exactly when it is filed under one of
/// the query's cells.
proof fn lemma_candidates_members(cells: Map<u64, Vec<usize>>, query: Seq<(i32, i32)>, x: usize)
    ensures
        spec_candidates_from(cells, query).contains(x) <==> exists|k: int|
            0 <= k < query.len() && #[trigger] spec_cell_list(cells, spec_cell_key(query[k])).contains(x),
    decreases query.len(),
{
    if query.len() > 0 {
        let prev = query.drop_last();
        lemma_candidates_members(cells, prev, x);
        lemma_add_unique_members(
            spec_candidates_from(cells, prev),
            spec_cell_list(cells, spec_cell_key(query.last())),
            x,
        );
        if exists|k: int| 0 <= k < prev.len() && #[trigger] spec_cell_list(cells, spec_cell_key(prev[k])).contains(x) {
            let k = choose|k: int| 0 <= k < prev.len() && #[trigger] spec_cell_list(cells, spec_cell_key(prev[k])).contains(x);
            assert(query[k] == prev[k]);
        }
        if exists|k: int| 0 <= k < query.len() && #[trigger] spec_cell_list(cells, spec_cell_key(query[k])).contains(x) {
            let k = choose|k: int| 0 <= k < query.len() && #[trigger] spec_cell_list(cells, spec_cell_key(query[k])).contains(x);
            if k < prev.len() {
                assert(prev[k] == query[k]);
            }
        }
    }
}

/// The members of a cell are exactly the live instances of the object whose
/// box covers it.
proof fn lemma_object_members<N>(
    instances: Seq<RuntimeInstance<N>>,
    bounds: Seq<Bounds>,
    object_id: usize,
    key: u64,
    n: nat,
    x: usize,
)
    requires
        n <= instances.len(),
        n <= bounds.len(),
        n <= usize::MAX,
    ensures
        spec_object_members(instances, bounds, object_id, key, n).contains(x) <==> (x < n
            && instances[x as int].alive && instances[x as int].object_id == object_id && spec_covers(
            bounds[x as int],
            key,
        )),
    decreases n,
{
    if n > 0 {
        lemma_object_members(instances, bounds, object_id, key, (n - 1) as nat, x);
        let rest = spec_object_members(instances, bounds, object_id, key, (n - 1) as nat);
        let i = n - 1;
        if instances[i].alive && instances[i].object_id == object_id && spec_covers(bounds[i], key) {
            if rest.push(i as usize).contains(x) && x != i {
                let pushed = rest.push(i as usize);
                let k = choose|k: int| 0 <= k < pushed.len() && #[trigger] pushed[k] == x;
                assert(rest[k] == x);
            }
            if x == i {
                assert(rest.push(i as usize)[rest.len() as int] == x);
            }
            if rest.contains(x) {
                let k = choose|k: int| 0 <= k < rest.len() && rest[k] == x;
                assert(rest.push(i as usize)[k] == x);
            }
        }
    }
}

/// A cell of a box is covered by it.
proof fn lemma_cell_covered(b: Bounds, c: (i32, i32))
    requires
        spec_cells_for_bounds(b.0, b.1, b.2, b.3).contains(c),
    ensures
        spec_covers(b, spec_cell_key(c)),
{
    let cells = spec_cells_for_bounds(b.0, b.1, b.2, b.3);
    let k = choose|k: int| 0 <= k < cells.len() && cells[k] == c;
    assert(spec_cell_key(cells[k]) == spec_cell_key(c));
}

/// The index finds every live instance of an object that overlaps the query:
/// where the index was built from `instances` and their boxes, an instance of
/// object `object_id` that is alive and whose box shares a pixel `(px, py)`
/// with the box `query` (the first coordinate counting on an axis where a
/// box is empty) is among `candidate_indices(object_id, query)`.
pub proof fn law_candidates_include_overlapping_instances<N>(
    index: RuntimeCollisionSpatialIndex,
    instances: Seq<RuntimeInstance<N>>,
    bounds: Seq<Bounds>,
    object_id: usize,
    query: Bounds,
    j: usize,
    px: i32,
    py: i32,
)
    requires
        index.spec_indexes(instances, bounds),
        instances.len() == bounds.len(),
        instances.len() <= usize::MAX,
        j < instances.len(),
        instances[j as int].alive,
        instances[j as int].object_id == object_id,
        bounds[j as int].0 <= px,
        px < bounds[j as int].2 || px == bounds[j as int].0,
        bounds[j as int].1 <= py,
        py < bounds[j as int].3 || py == bounds[j as int].1,
        query.0 <= px,
        px < query.2 || px == query.0,
        query.1 <= py,
        py < query.3 || py == query.1,
    ensures
        ({
            let cells = match index.object_cells(object_id) {
                Some(cells) => cells,
                None => Map::empty(),
            };
            &&& index.object_cells(object_id) is Some
            &&& spec_candidates_from(cells, spec_cells_for_bounds(query.0, query.1, query.2, query.3)).contains(j)
        }),
{
    let b = bounds[j as int];
    let c = (spec_cell_of(px as int) as i32, spec_cell_of(py as int) as i32);
    crate::event_dispatch::law_cells_cover_bounds(b.0, b.1, b.2, b.3, px, py);
    crate::event_dispatch::law_cells_cover_bounds(query.0, query.1, query.2, query.3, px, py);
    let key = spec_cell_key(c);
    lemma_cell_covered(b, c);
    lemma_object_members(instances, bounds, object_id, key, instances.len(), j);
    assert(index.object_cell(object_id, key) == spec_object_members(instances, bounds, object_id, key, instances.len()));
    assert(index.object_cell(object_id, key).contains(j));
    let cells = index.object_cells(object_id)->0;
    let qcells = spec_cells_for_bounds(query.0, query.1, query.2, query.3);
    let k = choose|k: int| 0 <= k < qcells.len() && qcells[k] == c;
    assert(spec_cell_list(cells, spec_cell_key(qcells[k])).contains(j));
    lemma_candidates_members(cells, qcells, j);
}

/// Every candidate the index gives is a live instance of the object whose box
/// shares a cell with the query.
pub proof fn law_candidates_are_live_instances_of_the_object<N>(
    index: RuntimeCollisionSpatialIndex,
    instances: Seq<RuntimeInstance<N>>,
    bounds: Seq<Bounds>,
    object_id: usize,
    query: Bounds,
    x: usize,
)
    requires
        index.spec_indexes(instances, bounds),
        instances.len() == bounds.len(),
        instances.len() <= usize::MAX,
        index.object_cells(object_id) is Some,
        spec_candidates_from(
            index.object_cells(object_id)->0,
            spec_cells_for_bounds(query.0, query.1, query.2, query.3),
        ).contains(x),
    ensures
        x < instances.len(),
        instances[x as int].alive,
        instances[x as int].object_id == object_id,
        exists|c: (i32, i32)|
            #[trigger] spec_cells_for_bounds(query.0, query.1, query.2, query.3).contains(c) && spec_covers(
                bounds[x as int],
                spec_cell_key(c),
            ),
{
    let cells = index.object_cells(object_id)->0;
    let qcells = spec_cells_for_bounds(query.0, query.1, query.2, query.3);
    lemma_candidates_members(cells, qcells, x);
    let k = choose|k: int| 0 <= k < qcells.len() && #[trigger] spec_cell_list(cells, spec_cell_key(qcells[k])).contains(x);
    let key = spec_cell_key(qcells[k]);
    assert(index.object_cell(object_id, key) == spec_cell_list(cells, key));
    lemma_object_members(instances, bounds, object_id, key, instances.len(), x);
    assert(qcells.contains(qcells[k]));
}

/// The members of a solid cell are exactly the live solid instances whose box
/// covers it.
proof fn lemma_solid_members<N>(
    instances: Seq<RuntimeInstance<N>>,
    bounds: Seq<Bounds>,
    key: u64,
    n: nat,
    x: usize,
)
    requires
        n <= instances.len(),
        n <= bounds.len(),
        n <= usize::MAX,
    ensures
        spec_solid_members(instances, bounds, key, n).contains(x) <==> (x < n && instances[x as int].alive
            && instances[x as int].solid && spec_covers(bounds[x as int], key)),
    decreases n,
{
    if n > 0 {
        lemma_solid_members(instances, bounds, key, (n - 1) as nat, x);
        let rest = spec_solid_members(instances, bounds, key, (n - 1) as nat);
        let i = n - 1;
        if instances[i].alive && instances[i].solid && spec_covers(bounds[i], key) {
            let pushed = rest.push(i as usize);
            if pushed.contains(x) && x != i {
                let k = choose|k: int| 0 <= k < pushed.len() && #[trigger] pushed[k] == x;
                assert(rest[k] == x);
            }
            if x == i {
                assert(pushed[rest.len() as int] == x);
            }
            if rest.contains(x) {
                let k = choose|k: int| 0 <= k < rest.len() && rest[k] == x;
                assert(pushed[k] == x);
            }
        }
    }
}

/// The index finds every live solid instance that overlaps the query: one
/// whose box shares a pixel `(px, py)` with the box `query` is among
/// `solid_candidate_indices(query)`.
pub proof fn law_solid_candidates_include_overlapping_instances<N>(
    index: RuntimeCollisionSpatialIndex,
    instances: Seq<RuntimeInstance<N>>,
    bounds: Seq<Bounds>,
    query: Bounds,
    j: usize,
    px: i32,
    py: i32,
)
    requires
        index.spec_indexes(instances, bounds),
        instances.len() == bounds.len(),
        instances.len() <= usize::MAX,
        j < instances.len(),
        instances[j as int].alive,
        instances[j as int].solid,
        bounds[j as int].0 <= px,
        px < bounds[j as int].2 || px == bounds[j as int].0,
        bounds[j as int].1 <= py,
        py < bounds[j as int].3 || py == bounds[j as int].1,
        query.0 <= px,
        px < query.2 || px == query.0,
        query.1 <= py,
        py < query.3 || py == query.1,
    ensures
        spec_candidates_from(index.solid(), spec_cells_for_bounds(query.0, query.1, query.2, query.3)).contains(j),
{
    let b = bounds[j as int];
    let c = (spec_cell_of(px as int) as i32, spec_cell_of(py as int) as i32);
    crate::event_dispatch::law_cells_cover_bounds(b.0, b.1, b.2, b.3, px, py);
    crate::event_dispatch::law_cells_cover_bounds(query.0, query.1, query.2, query.3, px, py);
    let key = spec_cell_key(c);
    lemma_cell_covered(b, c);
    lemma_solid_members(instances, bounds, key, instances.len(), j);
    assert(spec_cell_list(index.solid(), key) == spec_solid_members(instances, bounds, key, instances.len()));
    let qcells = spec_cells_for_bounds(query.0, query.1, query.2, query.3);
    let k = choose|k: int| 0 <= k < qcells.len() && qcells[k] == c;
    assert(spec_cell_list(index.solid(), spec_cell_key(qcells[k])).contains(j));
    lemma_candidates_members(index.solid(), qcells, j);
}

/// Adding elements that are not there yet keeps a list free of repeats.
proof fn lemma_add_unique_no_duplicates(acc: Seq<usize>, xs: Seq<usize>)
    requires
        acc.no_duplicates(),
    ensures
        spec_add_unique(acc, xs).no_duplicates(),
    decreases xs.len(),
{
    if xs.len() > 0 {
        lemma_add_unique_no_duplicates(acc, xs.drop_last());
        let a = spec_add_unique(acc, xs.drop_last());
        if !a.contains(xs.last()) {
            let pushed = a.push(xs.last());
            assert forall|i: int, j: int| 0 <= i < j < pushed.len() implies pushed[i] != pushed[j] by {
                if j == a.len() {
                    assert(pushed[i] == a[i]);
                    if a[i] == xs.last() {
                        assert(a.contains(xs.last()));
                    }
                } else {
                    assert(pushed[i] == a[i] && pushed[j] == a[j]);
                }
            }
        }
    }
}

/// No query lists an instance twice: the candidates of any cells, of an
/// object's cells or of the solid cells, hold each instance at most once.
pub proof fn law_candidates_are_unique(cells: Map<u64, Vec<usize>>, query: Seq<(i32, i32)>)
    ensures
        spec_candidates_from(cells, query).no_duplicates(),
    decreases query.len(),
{
    if query.len() > 0 {
        law_candidates_are_unique(cells, query.drop_last());
        lemma_add_unique_no_duplicates(
            spec_candidates_from(cells, query.drop_last()),
            spec_cell_list(cells, spec_cell_key(query.last())),
        );
    }
}

/// Every solid candidate the index gives is a live solid instance whose box
/// shares a cell with the query.
pub proof fn law_solid_candidates_are_live_solid_instances<N>(
    index: RuntimeCollisionSpatialIndex,
    instances: Seq<RuntimeInstance<N>>,
    bounds: Seq<Bounds>,
    query: Bounds,
    x: usize,
)
    requires
        index.spec_indexes(instances, bounds),
        instances.len() == bounds.len(),
        instances.len() <= usize::MAX,
        spec_candidates_from(index.solid(), spec_cells_for_bounds(query.0, query.1, query.2, query.3)).contains(x),
    ensures
        x < instances.len(),
        instances[x as int].alive,
        instances[x as int].solid,
        exists|c: (i32, i32)|
            #[trigger] spec_cells_for_bounds(query.0, query.1, query.2, query.3).contains(c) && spec_covers(
                bounds[x as int],
                spec_cell_key(c),
            ),
{
    let qcells = spec_cells_for_bounds(query.0, query.1, query.2, query.3);
    lemma_candidates_members(index.solid(), qcells, x);
    let k = choose|k: int| 0 <= k < qcells.len() && #[trigger] spec_cell_list(index.solid(), spec_cell_key(qcells[k])).contains(x);
    let key = spec_cell_key(qcells[k]);
    assert(spec_cell_list(index.solid(), key) == spec_solid_members(instances, bounds, key, instances.len()));
    lemma_solid_members(instances, bounds, key, instances.len(), x);
    assert(qcells.contains(qcells[k]));
}

} // verus!
