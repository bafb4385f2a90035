//! Event selection over the object hierarchy of a package, and the indexes the
//! dispatcher builds over the instances of a room.

use vstd::prelude::*;

use std::collections::HashMap;

use crate::model::{ObjectDefinition, ObjectEvent, RuntimeInstance, RuntimePackage, RuntimeRoomState};
use crate::text::{
    ascii_lower_char, char_len, is_ascii_alphanumeric, parse_u32_range, push_char, push_decimal, push_hex_byte,
    str_eq, spec_all_digits, spec_ascii_lower_char, spec_decimal, spec_digits_value, spec_hex_char,
    spec_is_ascii_alphanumeric, spec_parse_u32,
};

verus! {

/// The object events the dispatcher looks up.
#[derive(Clone, Copy, Debug)]
pub enum RuntimeEventSelector {
    Step,
    Draw,
    Destroy,
    Alarm(u32),
    KeyboardHeld(u16),
    KeyboardPressed(u16),
    KeyboardReleased(u16),
    OtherAnimationEnd,
    Collision { target_object_id: usize },
}

/// The name of a key in an event tag: the lowercase character of an ASCII
/// letter or digit, else `0x` and two lowercase hexadecimal digits of the low
/// byte of the key code.
pub open spec fn spec_format_key_name(sub_event: u16) -> Seq<char> {
    let b = sub_event as u8;
    let c = b as char;
    if spec_is_ascii_alphanumeric(c) {
        seq![spec_ascii_lower_char(c)]
    } else {
        seq!['0', 'x', spec_hex_char((b / 16) as nat), spec_hex_char((b % 16) as nat)]
    }
}

/// GM8 event type, sub-event and event tag of a selector.
pub open spec fn spec_event_selector_parts(selector: RuntimeEventSelector) -> (usize, u32, Seq<char>) {
    match selector {
        RuntimeEventSelector::Step => (3, 0, "step"@),
        RuntimeEventSelector::Draw => (8, 0, "draw"@),
        RuntimeEventSelector::Destroy => (1, 0, "destroy"@),
        RuntimeEventSelector::Alarm(slot) => (2, slot, "alarm:"@ + spec_decimal(slot as nat)),
        RuntimeEventSelector::KeyboardHeld(key) => (5, key as u32, "keyboard:"@ + spec_format_key_name(key)),
        RuntimeEventSelector::KeyboardPressed(key) => (9, key as u32, "keypress:"@ + spec_format_key_name(key)),
        RuntimeEventSelector::KeyboardReleased(key) => (
            10,
            key as u32,
            "keyrelease:"@ + spec_format_key_name(key),
        ),
        RuntimeEventSelector::OtherAnimationEnd => (7, 7, "other:animation-end"@),
        RuntimeEventSelector::Collision { target_object_id } => (
            4,
            target_object_id as u32,
            "collision"@,
        ),
    }
}

/// The name of a key in an event tag (see [`spec_format_key_name`]).
pub fn format_key_name(sub_event: u16) -> (r: String)
    ensures
        r@ == spec_format_key_name(sub_event),
{
    let b = sub_event as u8;
    let key = b as char;
    let mut out = String::new();
    if is_ascii_alphanumeric(key) {
        push_char(&mut out, ascii_lower_char(key));
    } else {
        push_char(&mut out, '0');
        push_char(&mut out, 'x');
        push_hex_byte(&mut out, b);
    }
    assert(out@ =~= spec_format_key_name(sub_event));
    out
}

/// The GM8 event type, sub-event and event tag that `selector` stands for.
pub fn event_selector_parts(selector: &RuntimeEventSelector) -> (r: (usize, u32, String))
    ensures
        (r.0, r.1, r.2@) == spec_event_selector_parts(*selector),
{
    match selector {
        RuntimeEventSelector::Step => (3, 0, "step".to_owned()),
        RuntimeEventSelector::Draw => (8, 0, "draw".to_owned()),
        RuntimeEventSelector::Destroy => (1, 0, "destroy".to_owned()),
        RuntimeEventSelector::Alarm(slot) => {
            let mut tag = "alarm:".to_owned();
            push_decimal(&mut tag, *slot as u64);
            (2, *slot, tag)
        },
        RuntimeEventSelector::KeyboardHeld(key) => {
            let mut tag = "keyboard:".to_owned();
            tag.append(format_key_name(*key).as_str());
            (5, *key as u32, tag)
        },
        RuntimeEventSelector::KeyboardPressed(key) => {
            let mut tag = "keypress:".to_owned();
            tag.append(format_key_name(*key).as_str());
            (9, *key as u32, tag)
        },
        RuntimeEventSelector::KeyboardReleased(key) => {
            let mut tag = "keyrelease:".to_owned();
            tag.append(format_key_name(*key).as_str());
            (10, *key as u32, tag)
        },
        RuntimeEventSelector::OtherAnimationEnd => (7, 7, "other:animation-end".to_owned()),
        RuntimeEventSelector::Collision { target_object_id } => (
            4,
            *target_object_id as u32,
            "collision".to_owned(),
        ),
    }
}

/// The name of a key in an event tag (see [`spec_format_key_name`]).
pub fn format_selector_key_name(sub_event: u16) -> (r: String)
    ensures
        r@ == spec_format_key_name(sub_event),
{
    format_key_name(sub_event)
}

/// The event tag diagnostics give a selector: the tag of its events.
pub fn selector_event_tag(selector: &RuntimeEventSelector) -> (r: String)
    ensures
        r@ == spec_event_selector_parts(*selector).2,
{
    let (_, _, tag) = event_selector_parts(selector);
    tag
}

/// The alarm slot a variable key names: `alarm[` and a `u32` and `]`.
pub open spec fn spec_parse_alarm_slot(key: Seq<char>) -> Option<u32> {
    if key.len() >= 7 && key.take(6) == "alarm["@ && key.last() == ']' {
        spec_parse_u32(key.subrange(6, key.len() - 1))
    } else {
        None
    }
}

/// The alarm slot `key` names, if it names one (see [`spec_parse_alarm_slot`]).
pub fn parse_alarm_slot(key: &str) -> (r: Option<u32>)
    ensures
        r == spec_parse_alarm_slot(key@),
{
    proof {
        reveal_strlit("alarm[");
    }
    let n = char_len(key);
    if n < 7 {
        return None;
    }
    let prefix = key.get_char(0) == 'a' && key.get_char(1) == 'l' && key.get_char(2) == 'a' && key.get_char(3) == 'r'
        && key.get_char(4) == 'm' && key.get_char(5) == '[';
    if !prefix {
        assert(key@.take(6) != "alarm["@) by {
            if key@.take(6) == "alarm["@ {
                assert(key@[0] == key@.take(6)[0]);
                assert(key@[1] == key@.take(6)[1]);
                assert(key@[2] == key@.take(6)[2]);
                assert(key@[3] == key@.take(6)[3]);
                assert(key@[4] == key@.take(6)[4]);
                assert(key@[5] == key@.take(6)[5]);
            }
        }
        return None;
    }
    assert(key@.take(6) =~= "alarm["@);
    if key.get_char(n - 1) != ']' {
        return None;
    }
    parse_u32_range(key, 6, n - 1)
}

// ----------------------------------------------------------------------------
// The object hierarchy

/// Position of the first object with id `id` at or after `start`.
pub open spec fn spec_object_index_from(objects: Seq<ObjectDefinition>, id: usize, start: int) -> Option<int>
    decreases objects.len() - start,
{
    if start < 0 || start >= objects.len() {
        None
    } else if objects[start].id == id {
        Some(start)
    } else {
        spec_object_index_from(objects, id, start + 1)
    }
}

/// Position of the first object with id `id`.
pub open spec fn spec_find_object(objects: Seq<ObjectDefinition>, id: usize) -> Option<int> {
    spec_object_index_from(objects, id, 0)
}

/// The parent id that an object definition names, if it names one.
pub open spec fn spec_parent_index(object: ObjectDefinition) -> Option<usize> {
    if object.parent_index >= 0 {
        Some(object.parent_index as usize)
    } else {
        None
    }
}

/// The parent of the first object with id `id`.
pub open spec fn spec_parent_of(objects: Seq<ObjectDefinition>, id: usize) -> Option<usize> {
    match spec_find_object(objects, id) {
        Some(i) => spec_parent_index(objects[i]),
        None => None,
    }
}

/// The `k`-th ancestor of `id`: `id` itself for `k == 0`.
pub open spec fn spec_ancestor(objects: Seq<ObjectDefinition>, id: usize, k: nat) -> Option<usize>
    decreases k,
{
    if k == 0 {
        Some(id)
    } else {
        match spec_ancestor(objects, id, (k - 1) as nat) {
            Some(a) => spec_parent_of(objects, a),
            None => None,
        }
    }
}

/// Every chain of parents ends: no object is its own ancestor. On a cyclic
/// hierarchy the walks of the parent chain do not terminate.
pub open spec fn spec_parent_chains_terminate(objects: Seq<ObjectDefinition>) -> bool {
    forall|id: usize| #[trigger] spec_ancestor(objects, id, (objects.len() + 1) as nat) is None
}

/// The chain of parents from `id` ends: it has fewer than `objects.len() + 1`
/// proper ancestors. On a cycle a walk of the chain does not end.
pub open spec fn spec_chain_ends(objects: Seq<ObjectDefinition>, id: usize) -> bool {
    spec_ancestor(objects, id, (objects.len() + 1) as nat) is None
}

/// `object_id` is `wanted_object_id` or inherits from it.
pub open spec fn spec_inherits_from(objects: Seq<ObjectDefinition>, object_id: usize, wanted_object_id: usize) -> bool {
    exists|k: nat| #[trigger] spec_ancestor(objects, object_id, k) == Some(wanted_object_id)
}

/// Once a chain of parents has ended it stays ended.
pub proof fn lemma_ancestor_none_stays(objects: Seq<ObjectDefinition>, id: usize, k: nat, j: nat)
    requires
        spec_ancestor(objects, id, k) is None,
        k <= j,
    ensures
        spec_ancestor(objects, id, j) is None,
    decreases j - k,
{
    if k < j {
        lemma_ancestor_none_stays(objects, id, k, (j - 1) as nat);
    }
}

/// The ancestors of the `k`-th ancestor are further ancestors.
pub proof fn lemma_ancestor_add(objects: Seq<ObjectDefinition>, id: usize, k: nat, j: nat, mid: usize)
    requires
        spec_ancestor(objects, id, k) == Some(mid),
    ensures
        spec_ancestor(objects, mid, j) == spec_ancestor(objects, id, k + j),
    decreases j,
{
    if j > 0 {
        lemma_ancestor_add(objects, id, k, (j - 1) as nat, mid);
    }
}

/// Where the chain from `id` ends, only its first `objects.len() + 1` ancestors exist.
pub proof fn lemma_ancestor_bounded(objects: Seq<ObjectDefinition>, id: usize, k: nat)
    requires
        spec_chain_ends(objects, id),
        spec_ancestor(objects, id, k) is Some,
    ensures
        k <= objects.len(),
{
    if k > objects.len() {
        lemma_ancestor_none_stays(objects, id, (objects.len() + 1) as nat, k);
    }
}

/// Position of the first object with id `id`.
pub fn find_object_index(objects: &Vec<ObjectDefinition>, id: usize) -> (r: Option<usize>)
    ensures
        match r {
            Some(i) => spec_find_object(objects@, id) == Some(i as int) && i < objects@.len()
                && objects@[i as int].id == id,
            None => spec_find_object(objects@, id) is None,
        },
{
    let mut i: usize = 0;
    while i < objects.len()
        invariant
            i <= objects@.len(),
            spec_find_object(objects@, id) == spec_object_index_from(objects@, id, i as int),
        decreases objects@.len() - i,
    {
        if objects[i].id == id {
            return Some(i);
        }
        i = i + 1;
    }
    None
}

fn parent_index_of(object: &ObjectDefinition) -> (r: Option<usize>)
    ensures
        r == spec_parent_index(*object),
{
    if object.parent_index >= 0 {
        Some(object.parent_index as usize)
    } else {
        None
    }
}

/// The parent of the first object with id `object_id`, if it has one.
pub fn object_parent_id(objects: &Vec<ObjectDefinition>, object_id: usize) -> (r: Option<usize>)
    ensures
        r == spec_parent_of(objects@, object_id),
{
    match find_object_index(objects, object_id) {
        Some(i) => parent_index_of(&objects[i]),
        None => None,
    }
}

/// The `steps`-th ancestor of `id`, walked one parent at a time.
fn ancestor_after(objects: &Vec<ObjectDefinition>, id: usize, steps: usize) -> (r: Option<usize>)
    ensures
        r == spec_ancestor(objects@, id, steps as nat),
{
    let mut current: Option<usize> = Some(id);
    let mut k: usize = 0;
    assert(spec_ancestor(objects@, id, 0) == Some(id));
    while k < steps
        invariant
            k <= steps,
            current == spec_ancestor(objects@, id, k as nat),
        decreases steps - k,
    {
        current = match current {
            Some(c) => object_parent_id(objects, c),
            None => None,
        };
        k = k + 1;
    }
    current
}

/// Whether every chain of parents ends: no object is its own ancestor. The
/// walks of the hierarchy are defined only where this holds.
pub fn parent_chains_terminate(objects: &Vec<ObjectDefinition>) -> (r: bool)
    ensures
        r == spec_parent_chains_terminate(objects@),
{
    let n = objects.len();
    let mut i: usize = 0;
    while i < n
        invariant
            n == objects@.len(),
            i <= n,
            forall|k: int| 0 <= k < i ==> #[trigger] spec_ancestor(objects@, objects@[k].id, (n + 1) as nat) is None,
        decreases n - i,
    {
        let last = match ancestor_after(objects, objects[i].id, n) {
            Some(a) => object_parent_id(objects, a),
            None => None,
        };
        if last.is_some() {
            assert(spec_ancestor(objects@, objects@[i as int].id, (n + 1) as nat) == last);
            return false;
        }
        i = i + 1;
    }
    assert forall|id: usize| #[trigger] spec_ancestor(objects@, id, (objects@.len() + 1) as nat) is None by {
        lemma_find_object_id(objects@, id);
        match spec_find_object(objects@, id) {
            Some(k) => {
                assert(spec_ancestor(objects@, objects@[k].id, (n + 1) as nat) is None);
            },
            None => {
                assert(spec_ancestor(objects@, id, 0) == Some(id));
                assert(spec_ancestor(objects@, id, 1) is None);
                lemma_ancestor_none_stays(objects@, id, 1, (n + 1) as nat);
            },
        }
    }
    true
}

/// Whether `object_id` is `wanted_object_id` or inherits from it.
pub fn object_matches_or_inherits_from(
    package: &RuntimePackage,
    object_id: usize,
    wanted_object_id: usize,
) -> (r: bool)
    requires
        spec_chain_ends(package.objects@, object_id) || spec_inherits_from(package.objects@, object_id, wanted_object_id),
    ensures
        r == spec_inherits_from(package.objects@, object_id, wanted_object_id),
{
    let objects = &package.objects;
    let ghost objs = package.objects@;
    let ghost bound: nat = if spec_chain_ends(objs, object_id) {
        (objs.len() + 1) as nat
    } else {
        choose|k: nat| #[trigger] spec_ancestor(objs, object_id, k) == Some(wanted_object_id)
    };
    let mut current: Option<usize> = Some(object_id);
    let ghost mut steps: nat = 0;
    loop
        invariant
            spec_chain_ends(objs, object_id) || spec_inherits_from(objs, object_id, wanted_object_id),
            spec_chain_ends(objs, object_id) ==> bound == objs.len() + 1,
            !spec_chain_ends(objs, object_id) ==> spec_ancestor(objs, object_id, bound) == Some(wanted_object_id),
            objs == objects@,
            objs == package.objects@,
            current == spec_ancestor(objs, object_id, steps),
            steps <= bound,
            forall|k: nat| k < steps ==> spec_ancestor(objs, object_id, k) != Some(wanted_object_id),
        decreases bound - steps,
    {
        match current {
            None => {
                assert forall|k: nat| #[trigger] spec_ancestor(objs, object_id, k) != Some(wanted_object_id) by {
                    if k >= steps {
                        lemma_ancestor_none_stays(objs, object_id, steps, k);
                    }
                }
                assert(!spec_inherits_from(objs, object_id, wanted_object_id));
                return false;
            },
            Some(id) => {
                if id == wanted_object_id {
                    assert(spec_ancestor(objs, object_id, steps) == Some(wanted_object_id));
                    return true;
                }
                proof {
                    if spec_chain_ends(objs, object_id) {
                        lemma_ancestor_bounded(objs, object_id, steps);
                    } else {
                        assert(steps != bound);
                    }
                }
                current = object_parent_id(objects, id);
                proof { steps = steps + 1; }
            },
        }
    }
}

/// The ids of the package's objects, in order, that are `wanted_object_id` or
/// inherit from it.
pub open spec fn spec_ids_inheriting(
    prefix: Seq<ObjectDefinition>,
    objects: Seq<ObjectDefinition>,
    wanted_object_id: usize,
) -> Seq<usize>
    decreases prefix.len(),
{
    if prefix.len() == 0 {
        Seq::empty()
    } else {
        let rest = spec_ids_inheriting(prefix.drop_last(), objects, wanted_object_id);
        if spec_inherits_from(objects, prefix.last().id, wanted_object_id) {
            rest.push(prefix.last().id)
        } else {
            rest
        }
    }
}

/// The ids of the package's objects, in order, that are `wanted_object_id` or
/// inherit from it.
pub fn object_ids_matching_or_inheriting_from(package: &RuntimePackage, wanted_object_id: usize) -> (r: Vec<usize>)
    requires
        forall|k: int| 0 <= k < package.objects@.len() ==> spec_chain_ends(package.objects@, #[trigger] package.objects@[k].id)
            || spec_inherits_from(package.objects@, package.objects@[k].id, wanted_object_id),
    ensures
        r@ == spec_ids_inheriting(package.objects@, package.objects@, wanted_object_id),
{
    let mut ids: Vec<usize> = Vec::new();
    let mut i: usize = 0;
    while i < package.objects.len()
        invariant
            i <= package.objects@.len(),
            forall|k: int| 0 <= k < package.objects@.len() ==> spec_chain_ends(package.objects@, #[trigger] package.objects@[k].id)
            || spec_inherits_from(package.objects@, package.objects@[k].id, wanted_object_id),
            ids@ == spec_ids_inheriting(package.objects@.take(i as int), package.objects@, wanted_object_id),
        decreases package.objects@.len() - i,
    {
        assert(package.objects@.take(i + 1).drop_last() =~= package.objects@.take(i as int));
        if object_matches_or_inherits_from(package, package.objects[i].id, wanted_object_id) {
            ids.push(package.objects[i].id);
        }
        i = i + 1;
    }
    assert(package.objects@.take(i as int) =~= package.objects@);
    ids
}


// ----------------------------------------------------------------------------
// Event lookup along the hierarchy

/// The event has the given type, sub-event and tag.
pub open spec fn spec_event_matches(event: ObjectEvent, event_type: usize, sub_event: u32, tag: Seq<char>) -> bool {
    event.event_type == event_type && event.sub_event == sub_event && event.event_tag@ == tag
}

/// The block ids of the matching events, in order.
pub open spec fn spec_matching_block_ids(
    events: Seq<ObjectEvent>,
    event_type: usize,
    sub_event: u32,
    tag: Seq<char>,
) -> Seq<Seq<char>>
    decreases events.len(),
{
    if events.len() == 0 {
        Seq::empty()
    } else {
        let rest = spec_matching_block_ids(events.drop_last(), event_type, sub_event, tag);
        if spec_event_matches(events.last(), event_type, sub_event, tag) {
            rest.push(events.last().block_id@)
        } else {
            rest
        }
    }
}

/// The block ids of the matching events of the nearest object on the chain of
/// parents from `current` that has any; empty where the chain reaches a missing
/// object or ends first. `fuel` bounds the number of objects visited.
pub open spec fn spec_event_blocks_from(
    objects: Seq<ObjectDefinition>,
    current: Option<usize>,
    event_type: usize,
    sub_event: u32,
    tag: Seq<char>,
    fuel: nat,
) -> Seq<Seq<char>>
    decreases fuel,
{
    if fuel == 0 {
        Seq::empty()
    } else {
        match current {
            None => Seq::empty(),
            Some(id) => match spec_find_object(objects, id) {
                None => Seq::empty(),
                Some(i) => {
                    let blocks = spec_matching_block_ids(objects[i].events@, event_type, sub_event, tag);
                    if blocks.len() > 0 {
                        blocks
                    } else {
                        spec_event_blocks_from(
                            objects,
                            spec_parent_index(objects[i]),
                            event_type,
                            sub_event,
                            tag,
                            (fuel - 1) as nat,
                        )
                    }
                },
            },
        }
    }
}

/// The views of a vector of strings.
pub open spec fn spec_string_views(v: Seq<String>) -> Seq<Seq<char>> {
    v.map_values(|s: String| s@)
}

fn event_matches(event: &ObjectEvent, event_type: usize, sub_event: u32, tag: &str) -> (r: bool)
    ensures
        r == spec_event_matches(*event, event_type, sub_event, tag@),
{
    event.event_type == event_type && event.sub_event == sub_event && str_eq(&event.event_tag, tag)
}

fn matching_block_ids(events: &Vec<ObjectEvent>, event_type: usize, sub_event: u32, tag: &str) -> (r: Vec<String>)
    ensures
        spec_string_views(r@) == spec_matching_block_ids(events@, event_type, sub_event, tag@),
{
    let mut ids: Vec<String> = Vec::new();
    let mut i: usize = 0;
    while i < events.len()
        invariant
            i <= events@.len(),
            spec_string_views(ids@) =~= spec_matching_block_ids(events@.take(i as int), event_type, sub_event, tag@),
        decreases events@.len() - i,
    {
        assert(events@.take(i + 1).drop_last() =~= events@.take(i as int));
        if event_matches(&events[i], event_type, sub_event, tag) {
            ids.push(events[i].block_id.clone());
        }
        i = i + 1;
    }
    assert(events@.take(i as int) =~= events@);
    ids
}

/// The block ids of the events that `selector` selects for `object_id`: those of
/// the object itself if it has any, else those of its nearest ancestor that has
/// any.
pub fn object_event_block_ids(package: &RuntimePackage, object_id: usize, selector: RuntimeEventSelector) -> (r: Vec<String>)
    requires
        spec_chain_ends(package.objects@, object_id),
    ensures
        spec_string_views(r@) == ({
            let (t, sub, tag) = spec_event_selector_parts(selector);
            spec_event_blocks_from(package.objects@, Some(object_id), t, sub, tag, (package.objects@.len() + 1) as nat)
        }),
{
    let (event_type, sub_event, wanted) = event_selector_parts(&selector);
    let ghost objs = package.objects@;
    let ghost fuel0: nat = (objs.len() + 1) as nat;
    let mut current: Option<usize> = Some(object_id);
    let ghost mut steps: nat = 0;
    loop
        invariant
            spec_chain_ends(objs, object_id),
            objs == package.objects@,
            fuel0 == objs.len() + 1,
            (event_type, sub_event, wanted@) == spec_event_selector_parts(selector),
            current == spec_ancestor(objs, object_id, steps),
            steps <= fuel0,
            spec_event_blocks_from(objs, Some(object_id), event_type, sub_event, wanted@, fuel0)
                == spec_event_blocks_from(objs, current, event_type, sub_event, wanted@, (fuel0 - steps) as nat),
        decreases fuel0 - steps,
    {
        match current {
            None => {
                let empty: Vec<String> = Vec::new();
                assert(spec_string_views(empty@) =~= Seq::<Seq<char>>::empty());
                return empty;
            },
            Some(id) => {
                proof { lemma_ancestor_bounded(objs, object_id, steps); }
                match find_object_index(&package.objects, id) {
                    None => {
                        let empty: Vec<String> = Vec::new();
                        assert(spec_string_views(empty@) =~= Seq::<Seq<char>>::empty());
                        return empty;
                    },
                    Some(i) => {
                        let blocks = matching_block_ids(&package.objects[i].events, event_type, sub_event, wanted.as_str());
                        if blocks.len() > 0 {
                            return blocks;
                        }
                        current = parent_index_of(&package.objects[i]);
                        proof { steps = steps + 1; }
                    },
                }
            },
        }
    }
}

/// The nearest object on the chain of parents from `current` with an event of
/// the given type, sub-event and tag, with the block id of its first such
/// event; `None` where the chain reaches a missing object or ends first.
/// `fuel` bounds the number of objects visited.
pub open spec fn spec_inherited_block_from(
    objects: Seq<ObjectDefinition>,
    current: Option<usize>,
    event_type: usize,
    sub_event: u32,
    tag: Seq<char>,
    fuel: nat,
) -> Option<(usize, Seq<char>)>
    decreases fuel,
{
    if fuel == 0 {
        None
    } else {
        match current {
            None => None,
            Some(id) => match spec_find_object(objects, id) {
                None => None,
                Some(i) => {
                    let blocks = spec_matching_block_ids(objects[i].events@, event_type, sub_event, tag);
                    if blocks.len() > 0 {
                        Some((objects[i].id, blocks[0]))
                    } else {
                        spec_inherited_block_from(
                            objects,
                            spec_parent_index(objects[i]),
                            event_type,
                            sub_event,
                            tag,
                            (fuel - 1) as nat,
                        )
                    }
                },
            },
        }
    }
}

/// The event that `selector` selects which `owner_object_id` inherits: the
/// nearest proper ancestor with such an event, with the block id of its first
/// such event.
pub fn inherited_event_block_id(
    objects: &Vec<ObjectDefinition>,
    owner_object_id: usize,
    selector: &RuntimeEventSelector,
) -> (r: Option<(usize, String)>)
    requires
        spec_chain_ends(objects@, owner_object_id),
    ensures
        match r {
            Some((id, block)) => ({
                let (t, sub, tag) = spec_event_selector_parts(*selector);
                spec_inherited_block_from(
                    objects@,
                    spec_parent_of(objects@, owner_object_id),
                    t,
                    sub,
                    tag,
                    (objects@.len() + 1) as nat,
                ) == Some((id, block@))
            }),
            None => ({
                let (t, sub, tag) = spec_event_selector_parts(*selector);
                spec_inherited_block_from(
                    objects@,
                    spec_parent_of(objects@, owner_object_id),
                    t,
                    sub,
                    tag,
                    (objects@.len() + 1) as nat,
                ) is None
            }),
        },
{
    let (event_type, sub_event, wanted) = event_selector_parts(selector);
    let ghost objs = objects@;
    let ghost fuel0: nat = (objs.len() + 1) as nat;
    let mut current: Option<usize> = object_parent_id(objects, owner_object_id);
    let ghost mut steps: nat = 0;
    assert(spec_ancestor(objs, owner_object_id, 0) == Some(owner_object_id));
    loop
        invariant
            spec_chain_ends(objs, owner_object_id),
            objs == objects@,
            fuel0 == objs.len() + 1,
            (event_type, sub_event, wanted@) == spec_event_selector_parts(*selector),
            current == spec_ancestor(objs, owner_object_id, steps + 1),
            steps <= fuel0,
            spec_inherited_block_from(objs, spec_parent_of(objs, owner_object_id), event_type, sub_event, wanted@, fuel0)
                == spec_inherited_block_from(objs, current, event_type, sub_event, wanted@, (fuel0 - steps) as nat),
        decreases fuel0 - steps,
    {
        match current {
            None => {
                return None;
            },
            Some(id) => {
                proof { lemma_ancestor_bounded(objs, owner_object_id, steps + 1); }
                match find_object_index(objects, id) {
                    None => {
                        return None;
                    },
                    Some(i) => {
                        let blocks = matching_block_ids(&objects[i].events, event_type, sub_event, wanted.as_str());
                        if blocks.len() > 0 {
                            assert(spec_string_views(blocks@)[0] == blocks@[0]@);
                            return Some((objects[i].id, blocks[0].clone()));
                        }
                        current = parent_index_of(&objects[i]);
                        proof { steps = steps + 1; }
                    },
                }
            },
        }
    }
}

/// The id of the first object that has an event running block `block_id`.
pub open spec fn spec_event_owner(objects: Seq<ObjectDefinition>, block_id: Seq<char>) -> Option<usize>
    decreases objects.len(),
{
    if objects.len() == 0 {
        None
    } else if exists|j: int| 0 <= j < objects[0].events@.len() && #[trigger] objects[0].events@[j].block_id@ == block_id {
        Some(objects[0].id)
    } else {
        spec_event_owner(objects.drop_first(), block_id)
    }
}

fn events_contain_block(events: &Vec<ObjectEvent>, block_id: &str) -> (r: bool)
    ensures
        r == exists|j: int| 0 <= j < events@.len() && #[trigger] events@[j].block_id@ == block_id@,
{
    let mut j: usize = 0;
    while j < events.len()
        invariant
            j <= events@.len(),
            forall|k: int| 0 <= k < j ==> #[trigger] events@[k].block_id@ != block_id@,
        decreases events@.len() - j,
    {
        if str_eq(&events[j].block_id, block_id) {
            return true;
        }
        j = j + 1;
    }
    false
}

/// The id of the first object that has an event running block `block_id`.
pub fn event_owner_id_for_block_id(objects: &Vec<ObjectDefinition>, block_id: &str) -> (r: Option<usize>)
    ensures
        r == spec_event_owner(objects@, block_id@),
{
    let mut i: usize = 0;
    assert(objects@.skip(0) =~= objects@);
    while i < objects.len()
        invariant
            i <= objects@.len(),
            spec_event_owner(objects@, block_id@) == spec_event_owner(objects@.skip(i as int), block_id@),
        decreases objects@.len() - i,
    {
        assert(objects@.skip(i as int)[0] == objects@[i as int]);
        if events_contain_block(&objects[i].events, block_id) {
            return Some(objects[i].id);
        }
        assert(objects@.skip(i as int).drop_first() =~= objects@.skip(i + 1));
        i = i + 1;
    }
    None
}


/// The target object ids of the collision events among `events`, in order.
pub open spec fn spec_collision_targets(events: Seq<ObjectEvent>) -> Seq<usize>
    decreases events.len(),
{
    if events.len() == 0 {
        Seq::empty()
    } else {
        let rest = spec_collision_targets(events.drop_last());
        let e = events.last();
        if e.event_type == 4 && e.event_tag@ == "collision"@ {
            rest.push(e.sub_event as usize)
        } else {
            rest
        }
    }
}

/// The collision targets of the nearest object on the chain of parents from
/// `current` that has collision events; empty where the chain reaches a missing
/// object or ends first.
pub open spec fn spec_collision_targets_from(objects: Seq<ObjectDefinition>, current: Option<usize>, fuel: nat) -> Seq<usize>
    decreases fuel,
{
    if fuel == 0 {
        Seq::empty()
    } else {
        match current {
            None => Seq::empty(),
            Some(id) => match spec_find_object(objects, id) {
                None => Seq::empty(),
                Some(i) => {
                    let targets = spec_collision_targets(objects[i].events@);
                    if targets.len() > 0 {
                        targets
                    } else {
                        spec_collision_targets_from(objects, spec_parent_index(objects[i]), (fuel - 1) as nat)
                    }
                },
            },
        }
    }
}

fn collision_targets(events: &Vec<ObjectEvent>) -> (r: Vec<usize>)
    ensures
        r@ == spec_collision_targets(events@),
{
    let mut ids: Vec<usize> = Vec::new();
    let mut i: usize = 0;
    while i < events.len()
        invariant
            i <= events@.len(),
            ids@ == spec_collision_targets(events@.take(i as int)),
        decreases events@.len() - i,
    {
        assert(events@.take(i + 1).drop_last() =~= events@.take(i as int));
        let e = &events[i];
        if e.event_type == 4 && str_eq(&e.event_tag, "collision") {
            ids.push(e.sub_event as usize);
        }
        i = i + 1;
    }
    assert(events@.take(i as int) =~= events@);
    ids
}

/// The objects that `object_id` has collision events with: those of the object
/// itself if it has any, else those of its nearest ancestor that has any.
pub fn collision_event_target_object_ids(package: &RuntimePackage, object_id: usize) -> (r: Vec<usize>)
    requires
        spec_chain_ends(package.objects@, object_id),
    ensures
        r@ == spec_collision_targets_from(package.objects@, Some(object_id), (package.objects@.len() + 1) as nat),
{
    let ghost objs = package.objects@;
    let ghost fuel0: nat = (objs.len() + 1) as nat;
    let mut current: Option<usize> = Some(object_id);
    let ghost mut steps: nat = 0;
    loop
        invariant
            spec_chain_ends(objs, object_id),
            objs == package.objects@,
            fuel0 == objs.len() + 1,
            current == spec_ancestor(objs, object_id, steps),
            steps <= fuel0,
            spec_collision_targets_from(objs, Some(object_id), fuel0)
                == spec_collision_targets_from(objs, current, (fuel0 - steps) as nat),
        decreases fuel0 - steps,
    {
        match current {
            None => {
                return Vec::new();
            },
            Some(id) => {
                proof { lemma_ancestor_bounded(objs, object_id, steps); }
                match find_object_index(&package.objects, id) {
                    None => {
                        return Vec::new();
                    },
                    Some(i) => {
                        let targets = collision_targets(&package.objects[i].events);
                        if targets.len() > 0 {
                            return targets;
                        }
                        current = parent_index_of(&package.objects[i]);
                        proof { steps = steps + 1; }
                    },
                }
            },
        }
    }
}

// ----------------------------------------------------------------------------
// Indexes over the instances of a room

/// The indices below `n` of the live instances of object `object_id`, in order.
pub open spec fn spec_alive_indices_of<N>(instances: Seq<RuntimeInstance<N>>, object_id: usize, n: int) -> Seq<usize>
    decreases n,
{
    if n <= 0 {
        Seq::empty()
    } else {
        let rest = spec_alive_indices_of(instances, object_id, n - 1);
        if instances[n - 1].alive && instances[n - 1].object_id == object_id {
            rest.push((n - 1) as usize)
        } else {
            rest
        }
    }
}

/// `map` sends each object id with live instances among the first `n` to
/// their indices, in order, and holds no other key.
pub open spec fn spec_is_alive_index<N>(map: Map<usize, Vec<usize>>, instances: Seq<RuntimeInstance<N>>, n: int) -> bool {
    &&& forall|k: usize| #[trigger] map.contains_key(k) <==> spec_alive_indices_of(instances, k, n).len() > 0
    &&& forall|k: usize| #[trigger] map.contains_key(k) ==> map[k]@ == spec_alive_indices_of(instances, k, n)
}

/// The indices of the live instances, grouped by object id.
pub fn runtime_instance_indices_by_object_id_from_instances<N>(instances: &Vec<RuntimeInstance<N>>) -> (r: HashMap<usize, Vec<usize>>)
    ensures
        spec_is_alive_index(r@, instances@, instances@.len() as int),
{
    broadcast use vstd::std_specs::hash::group_hash_axioms;
    let mut indices: HashMap<usize, Vec<usize>> = HashMap::new();
    let mut i: usize = 0;
    while i < instances.len()
        invariant
            i <= instances@.len(),
            spec_is_alive_index(indices@, instances@, i as int),
        decreases instances@.len() - i,
    {
        if instances[i].alive {
            let object_id = instances[i].object_id;
            let mut list = match indices.remove(&object_id) {
                Some(list) => list,
                None => Vec::new(),
            };
            list.push(i);
            indices.insert(object_id, list);
            assert forall|k: usize| #[trigger] indices@.contains_key(k) <==> spec_alive_indices_of(instances@, k, i + 1).len() > 0 by {
                if k != object_id {
                    assert(spec_alive_indices_of(instances@, k, i + 1) == spec_alive_indices_of(instances@, k, i as int));
                }
            }
            assert forall|k: usize| #[trigger] indices@.contains_key(k) implies indices@[k]@ == spec_alive_indices_of(instances@, k, i + 1) by {
                if k != object_id {
                    assert(spec_alive_indices_of(instances@, k, i + 1) == spec_alive_indices_of(instances@, k, i as int));
                }
            }
        } else {
            assert forall|k: usize| spec_alive_indices_of(instances@, k, i + 1) == spec_alive_indices_of(instances@, k, i as int) by {}
        }
        i = i + 1;
    }
    indices
}

/// The indices of the live instances of a room, grouped by object id.
pub fn runtime_instance_indices_by_object_id<N>(room: &RuntimeRoomState<N>) -> (r: HashMap<usize, Vec<usize>>)
    ensures
        spec_is_alive_index(r@, room.instances@, room.instances@.len() as int),
{
    runtime_instance_indices_by_object_id_from_instances(&room.instances)
}


/// Side of the square cells of the collision spatial index, in pixels.
pub const COLLISION_SPATIAL_CELL_SIZE: i32 = 64;

/// The cell, along one axis, that holds pixel coordinate `v` (floor division).
pub open spec fn spec_cell_of(v: int) -> int {
    v / (COLLISION_SPATIAL_CELL_SIZE as int)
}

/// The cells `(left_cell..=right_cell, y)` of one row, left to right.
pub open spec fn spec_cell_row(y: int, left_cell: int, right_cell: int) -> Seq<(i32, i32)> {
    Seq::new((right_cell - left_cell + 1) as nat, |j: int| ((left_cell + j) as i32, y as i32))
}

/// The rows of cells from `top_cell` up to, not including, `end_y`, top to bottom.
pub open spec fn spec_cell_rows(left_cell: int, right_cell: int, top_cell: int, end_y: int) -> Seq<(i32, i32)>
    decreases end_y - top_cell,
{
    if end_y <= top_cell {
        Seq::empty()
    } else {
        spec_cell_rows(left_cell, right_cell, top_cell, end_y - 1) + spec_cell_row(end_y - 1, left_cell, right_cell)
    }
}

/// The cells covered by the half-open pixel rectangle `left..right`,
/// `top..bottom`, row by row; a rectangle empty on an axis covers the cell of
/// its first coordinate on that axis.
pub open spec fn spec_cells_for_bounds(left: i32, top: i32, right: i32, bottom: i32) -> Seq<(i32, i32)> {
    let r = if right - 1 > left { right - 1 } else { left as int };
    let b = if bottom - 1 > top { bottom - 1 } else { top as int };
    spec_cell_rows(spec_cell_of(left as int), spec_cell_of(r), spec_cell_of(top as int), spec_cell_of(b) + 1)
}

fn cell_of(v: i32) -> (r: i32)
    ensures
        r == spec_cell_of(v as int),
{
    let w = v as i64;
    if w >= 0 {
        (w / 64) as i32
    } else {
        let q: i64 = ((-w) + 63) / 64;
        assert(-q == spec_cell_of(v as int)) by (nonlinear_arith)
            requires
                w < 0,
                w == v,
                q == ((-w) + 63) / 64,
        ;
        (-q) as i32
    }
}

/// The cells of the collision spatial index covered by the half-open pixel
/// rectangle `left..right`, `top..bottom`, row by row.
pub fn cells_for_bounds(left: i32, top: i32, right: i32, bottom: i32) -> (r: Vec<(i32, i32)>)
    requires
        right > i32::MIN,
        bottom > i32::MIN,
    ensures
        r@ == spec_cells_for_bounds(left, top, right, bottom),
{
    let right = if right - 1 > left { right - 1 } else { left };
    let bottom = if bottom - 1 > top { bottom - 1 } else { top };
    let left_cell = cell_of(left);
    let right_cell = cell_of(right);
    let top_cell = cell_of(top);
    let bottom_cell = cell_of(bottom);
    assert(left_cell <= right_cell && top_cell <= bottom_cell) by (nonlinear_arith)
        requires
            left <= right,
            top <= bottom,
            left_cell == spec_cell_of(left as int),
            right_cell == spec_cell_of(right as int),
            top_cell == spec_cell_of(top as int),
            bottom_cell == spec_cell_of(bottom as int),
    ;
    assert(-33554432 <= left_cell <= 33554432 && -33554432 <= right_cell <= 33554432) by (nonlinear_arith)
        requires
            left_cell == spec_cell_of(left as int),
            right_cell == spec_cell_of(right as int),
    ;
    assert(-33554432 <= top_cell <= 33554432 && -33554432 <= bottom_cell <= 33554432) by (nonlinear_arith)
        requires
            top_cell == spec_cell_of(top as int),
            bottom_cell == spec_cell_of(bottom as int),
    ;
    let mut cells: Vec<(i32, i32)> = Vec::new();
    let mut y: i32 = top_cell;
    while y <= bottom_cell
        invariant
            top_cell <= y <= bottom_cell + 1,
            left_cell <= right_cell,
            -33554432 <= bottom_cell <= 33554432,
            -33554432 <= right_cell <= 33554432,
            cells@ == spec_cell_rows(left_cell as int, right_cell as int, top_cell as int, y as int),
        decreases bottom_cell + 1 - y,
    {
        let ghost before = cells@;
        let mut x: i32 = left_cell;
        while x <= right_cell
            invariant
                left_cell <= x <= right_cell + 1,
                -33554432 <= right_cell <= 33554432,
                cells@ == before + spec_cell_row(y as int, left_cell as int, right_cell as int).take(x - left_cell),
            decreases right_cell + 1 - x,
        {
            cells.push((x, y));
            assert(spec_cell_row(y as int, left_cell as int, right_cell as int).take(x + 1 - left_cell)
                =~= spec_cell_row(y as int, left_cell as int, right_cell as int).take(x - left_cell).push((x, y)));
            x = x + 1;
        }
        assert(spec_cell_row(y as int, left_cell as int, right_cell as int).take(x - left_cell)
            =~= spec_cell_row(y as int, left_cell as int, right_cell as int));
        y = y + 1;
    }
    cells
}

// ----------------------------------------------------------------------------
// Laws of the hierarchy

/// Every object matches itself: `object_matches_or_inherits_from(p, id, id)`
/// holds for every id.
pub proof fn law_inherits_reflexive(objects: Seq<ObjectDefinition>, id: usize)
    ensures
        spec_inherits_from(objects, id, id),
{
    assert(spec_ancestor(objects, id, 0) == Some(id));
}

/// Inheritance is transitive: an object that inherits from one that inherits
/// from a third inherits from the third.
pub proof fn law_inherits_transitive(objects: Seq<ObjectDefinition>, a: usize, b: usize, c: usize)
    requires
        spec_inherits_from(objects, a, b),
        spec_inherits_from(objects, b, c),
    ensures
        spec_inherits_from(objects, a, c),
{
    let k = choose|k: nat| #[trigger] spec_ancestor(objects, a, k) == Some(b);
    let j = choose|j: nat| #[trigger] spec_ancestor(objects, b, j) == Some(c);
    lemma_ancestor_add(objects, a, k, j, b);
    assert(spec_ancestor(objects, a, k + j) == Some(c));
}

/// The object whose event is found on the chain from the `s`-th ancestor of
/// `owner` is itself an ancestor of `owner`, at least `s` steps up.
proof fn lemma_inherited_block_from_ancestor(
    objects: Seq<ObjectDefinition>,
    owner: usize,
    s: nat,
    event_type: usize,
    sub_event: u32,
    tag: Seq<char>,
    fuel: nat,
)
    requires
        spec_inherited_block_from(objects, spec_ancestor(objects, owner, s), event_type, sub_event, tag, fuel) is Some,
    ensures
        ({
            let (id, _) = spec_inherited_block_from(objects, spec_ancestor(objects, owner, s), event_type, sub_event, tag, fuel)->0;
            exists|k: nat| k >= s && #[trigger] spec_ancestor(objects, owner, k) == Some(id)
        }),
    decreases fuel,
{
    let current = spec_ancestor(objects, owner, s);
    let id0 = current->0;
    let i = spec_find_object(objects, id0)->0;
    let blocks = spec_matching_block_ids(objects[i].events@, event_type, sub_event, tag);
    lemma_find_object_id(objects, id0);
    if blocks.len() > 0 {
        assert(spec_ancestor(objects, owner, s) == Some(objects[i].id));
    } else {
        assert(spec_ancestor(objects, owner, s + 1) == spec_parent_index(objects[i]));
        lemma_inherited_block_from_ancestor(objects, owner, s + 1, event_type, sub_event, tag, (fuel - 1) as nat);
    }
}

/// The object a found position points at has the id looked for.
proof fn lemma_find_object_id(objects: Seq<ObjectDefinition>, id: usize)
    ensures
        spec_find_object(objects, id) matches Some(i) ==> 0 <= i < objects.len() && objects[i].id == id,
{
    lemma_object_index_from(objects, id, 0);
}

proof fn lemma_object_index_from(objects: Seq<ObjectDefinition>, id: usize, start: int)
    ensures
        spec_object_index_from(objects, id, start) matches Some(i) ==> start <= i < objects.len() && objects[i].id
            == id,
    decreases objects.len() - start,
{
    if 0 <= start < objects.len() && objects[start].id != id {
        lemma_object_index_from(objects, id, start + 1);
    }
}

/// An inherited event belongs to a proper ancestor: where
/// `inherited_event_block_id(objects, owner, selector)` gives `(id, _)`, `owner`
/// inherits from `id` through at least one parent.
pub proof fn law_inherited_event_owner_is_ancestor(
    objects: Seq<ObjectDefinition>,
    owner: usize,
    event_type: usize,
    sub_event: u32,
    tag: Seq<char>,
    fuel: nat,
)
    requires
        spec_inherited_block_from(objects, spec_parent_of(objects, owner), event_type, sub_event, tag, fuel) is Some,
    ensures
        ({
            let (id, _) = spec_inherited_block_from(objects, spec_parent_of(objects, owner), event_type, sub_event, tag, fuel)->0;
            &&& spec_inherits_from(objects, owner, id)
            &&& exists|k: nat| k >= 1 && #[trigger] spec_ancestor(objects, owner, k) == Some(id)
        }),
{
    assert(spec_ancestor(objects, owner, 0) == Some(owner));
    assert(spec_ancestor(objects, owner, 1) == spec_parent_of(objects, owner));
    lemma_inherited_block_from_ancestor(objects, owner, 1, event_type, sub_event, tag, fuel);
}

/// The decimal digits of `n` spell `n`.
proof fn lemma_decimal_value(n: nat)
    ensures
        spec_decimal(n).len() >= 1,
        spec_all_digits(spec_decimal(n)),
        spec_digits_value(spec_decimal(n)) == n,
    decreases n,
{
    if n >= 10 {
        lemma_decimal_value(n / 10);
        let d = spec_decimal(n);
        assert(d.drop_last() =~= spec_decimal(n / 10));
        assert forall|i: int| 0 <= i < d.len() implies '0' <= #[trigger] d[i] && d[i] <= '9' by {
            if i < d.len() - 1 {
                assert(d[i] == spec_decimal(n / 10)[i]);
            }
        }
        assert((d.last() as u32) == 48 + n % 10);
        assert(spec_digits_value(d) == spec_digits_value(spec_decimal(n / 10)) * 10 + n % 10);
    } else {
        assert(spec_decimal(n).drop_last() =~= Seq::<char>::empty());
        assert(spec_digits_value(Seq::<char>::empty()) == 0);
        assert((spec_decimal(n).last() as u32) == 48 + n);
    }
}

/// An alarm slot reads back from the variable key that names it: for every
/// slot `n`, `parse_alarm_slot` of `alarm[n]` is `n`.
pub proof fn law_alarm_slot_round_trip(n: u32)
    ensures
        spec_parse_alarm_slot("alarm["@ + spec_decimal(n as nat) + "]"@) == Some(n),
{
    reveal_strlit("alarm[");
    reveal_strlit("]");
    lemma_decimal_value(n as nat);
    let d = spec_decimal(n as nat);
    let key = "alarm["@ + d + "]"@;
    assert(key.take(6) =~= "alarm["@);
    assert(key.subrange(6, key.len() - 1) =~= d);
    assert(key.last() == ']');
    assert(d[0] != '+');
}

/// A row range of cells holds each cell within it.
proof fn lemma_cell_rows_contain(left_cell: int, right_cell: int, top_cell: int, end_y: int, cx: int, cy: int)
    requires
        left_cell <= cx <= right_cell,
        top_cell <= cy < end_y,
    ensures
        spec_cell_rows(left_cell, right_cell, top_cell, end_y).contains((cx as i32, cy as i32)),
    decreases end_y - top_cell,
{
    let rows = spec_cell_rows(left_cell, right_cell, top_cell, end_y - 1);
    let row = spec_cell_row(end_y - 1, left_cell, right_cell);
    if cy == end_y - 1 {
        assert((rows + row)[rows.len() + (cx - left_cell)] == (cx as i32, cy as i32));
    } else {
        lemma_cell_rows_contain(left_cell, right_cell, top_cell, end_y - 1, cx, cy);
        let k = choose|k: int| 0 <= k < rows.len() && rows[k] == (cx as i32, cy as i32);
        assert((rows + row)[k] == (cx as i32, cy as i32));
    }
}

/// The cells of a rectangle cover each of its pixels: for every pixel
/// `(px, py)` of the rectangle (its first coordinate on an empty axis),
/// `cells_for_bounds` holds the cell of that pixel, so an instance is found
/// through the cell of any pixel it covers.
pub proof fn law_cells_cover_bounds(left: i32, top: i32, right: i32, bottom: i32, px: i32, py: i32)
    requires
        left <= px,
        px < right || px == left,
        top <= py,
        py < bottom || py == top,
    ensures
        spec_cells_for_bounds(left, top, right, bottom).contains(
            (spec_cell_of(px as int) as i32, spec_cell_of(py as int) as i32),
        ),
{
    let r: int = if right - 1 > left { right - 1 } else { left as int };
    let b: int = if bottom - 1 > top { bottom - 1 } else { top as int };
    assert(left <= px <= r);
    assert(top <= py <= b);
    assert(spec_cell_of(left as int) <= spec_cell_of(px as int) <= spec_cell_of(r)) by (nonlinear_arith)
        requires
            left <= px <= r,
    ;
    assert(spec_cell_of(top as int) <= spec_cell_of(py as int) <= spec_cell_of(b)) by (nonlinear_arith)
        requires
            top <= py <= b,
    ;
    lemma_cell_rows_contain(
        spec_cell_of(left as int),
        spec_cell_of(r),
        spec_cell_of(top as int),
        spec_cell_of(b) + 1,
        spec_cell_of(px as int),
        spec_cell_of(py as int),
    );
}

/// Each selector looks up the GM8 event type it names, with its sub-event
/// and tag: step 3, draw 8, destroy 1, alarm 2 with the slot,
/// held, pressed and released keys 5, 9 and 10 with the key code, animation
/// end 7/7, collision 4 with the target object; and a letter key is named by
/// its lowercase letter, a digit key by its digit.
pub proof fn law_selectors_name_their_events(slot: u32, key: u16, target: usize)
    ensures
        spec_event_selector_parts(RuntimeEventSelector::Step) == (3usize, 0u32, "step"@),
        spec_event_selector_parts(RuntimeEventSelector::Draw) == (8usize, 0u32, "draw"@),
        spec_event_selector_parts(RuntimeEventSelector::Destroy) == (1usize, 0u32, "destroy"@),
        spec_event_selector_parts(RuntimeEventSelector::Alarm(slot)).0 == 2 && spec_event_selector_parts(
            RuntimeEventSelector::Alarm(slot),
        ).1 == slot,
        spec_event_selector_parts(RuntimeEventSelector::KeyboardHeld(key)).0 == 5 && spec_event_selector_parts(
            RuntimeEventSelector::KeyboardHeld(key),
        ).1 == key as u32,
        spec_event_selector_parts(RuntimeEventSelector::KeyboardPressed(key)).0 == 9 && spec_event_selector_parts(
            RuntimeEventSelector::KeyboardPressed(key),
        ).1 == key as u32,
        spec_event_selector_parts(RuntimeEventSelector::KeyboardReleased(key)).0 == 10 && spec_event_selector_parts(
            RuntimeEventSelector::KeyboardReleased(key),
        ).1 == key as u32,
        spec_event_selector_parts(RuntimeEventSelector::OtherAnimationEnd) == (7usize, 7u32, "other:animation-end"@),
        spec_event_selector_parts(RuntimeEventSelector::Collision { target_object_id: target }) == (
            4usize,
            target as u32,
            "collision"@,
        ),
        65 <= key <= 90 ==> spec_format_key_name(key) == seq![((key + 32) as u8) as char],
        48 <= key <= 57 ==> spec_format_key_name(key) == seq![(key as u8) as char],
{
}

} // verus!
