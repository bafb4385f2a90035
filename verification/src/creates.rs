//! The queue of instance creations a pass of events requests: first in, first
//! created, with the creations a creation's own code requests queued behind
//! the rest, until a scene change stops the run.

use std::collections::HashMap;

use vstd::prelude::*;

verus! {

/// Creation requests waiting their turn, oldest first.
pub struct RuntimeCreateQueue<T> {
    pending: Vec<T>,
}

impl<T> RuntimeCreateQueue<T> {
    /// The waiting requests, oldest first.
    pub closed spec fn view(&self) -> Seq<T> {
        self.pending@
    }

    /// A queue of `requests`, in the order they were made.
    pub fn from_requests(requests: Vec<T>) -> (r: Self)
        ensures
            r@ == requests@,
    {
        RuntimeCreateQueue { pending: requests }
    }

    /// The oldest waiting request, taken off the queue; none where the queue
    /// is empty.
    pub fn next_create(&mut self) -> (r: Option<T>)
        ensures
            old(self)@.len() == 0 ==> r is None && final(self)@ == old(self)@,
            old(self)@.len() > 0 ==> r == Some(old(self)@[0]) && final(self)@ == old(self)@.drop_first(),
    {
        if self.pending.len() == 0 {
            None
        } else {
            let first = self.pending.remove(0);
            assert(self.pending@ =~= old(self)@.drop_first());
            Some(first)
        }
    }

    /// After a creation has run: where a scene change is pending, the run
    /// stops (`false`) and the requests the creation's code made are put
    /// ahead of those still waiting, to be handed back; else they are queued
    /// behind the rest (`true`).
    pub fn after_create(&mut self, requested: Vec<T>, scene_change_pending: bool) -> (r: bool)
        ensures
            r == !scene_change_pending,
            scene_change_pending ==> final(self)@ == requested@ + old(self)@,
            !scene_change_pending ==> final(self)@ == old(self)@ + requested@,
    {
        let mut requested = requested;
        if scene_change_pending {
            let mut waiting = Vec::new();
            std::mem::swap(&mut waiting, &mut self.pending);
            requested.append(&mut waiting);
            self.pending = requested;
            return false;
        }
        self.pending.append(&mut requested);
        true
    }

    /// The requests still waiting, oldest first, handed back to the pass that
    /// made them.
    pub fn into_remaining(self) -> (r: Vec<T>)
        ensures
            r@ == self@,
    {
        self.pending
    }
}

/// Files a created instance, at position `index` of the room, under its
/// object in the index of instances by object.
pub fn register_created_instance(indices_by_object: &mut HashMap<usize, Vec<usize>>, object_id: usize, index: usize)
    ensures
        final(indices_by_object)@.dom() == old(indices_by_object)@.dom().insert(object_id),
        final(indices_by_object)@[object_id]@ == (if old(indices_by_object)@.contains_key(object_id) {
            old(indices_by_object)@[object_id]@
        } else {
            Seq::empty()
        }).push(index),
        forall|o: usize|
            o != object_id && #[trigger] old(indices_by_object)@.contains_key(o)
                ==> final(indices_by_object)@[o] == old(indices_by_object)@[o],
{
    broadcast use vstd::std_specs::hash::group_hash_axioms;
    let mut list: Vec<usize> = match indices_by_object.remove(&object_id) {
        Some(list) => list,
        None => Vec::new(),
    };
    list.push(index);
    indices_by_object.insert(object_id, list);
    assert(indices_by_object@.dom() =~= old(indices_by_object)@.dom().insert(object_id));
}

/// A creation never overtakes an earlier one: requests queued after a
/// creation come behind every request that was already waiting, so taking
/// the next one after queueing gives the oldest waiting request.
pub proof fn law_creates_are_first_in_first_out<T>(waiting: Seq<T>, requested: Seq<T>)
    requires
        waiting.len() > 0,
    ensures
        (waiting + requested)[0] == waiting[0],
        (waiting + requested).drop_first() == waiting.drop_first() + requested,
{
    assert((waiting + requested).drop_first() =~= waiting.drop_first() + requested);
}

/// Where a run of creations is.
#[derive(Clone, Copy, Debug, PartialEq, Eq)]
pub enum CreateRunStage {
    /// The next request is to be taken.
    Next,
    /// A creation has just run.
    Created,
    Finished,
}

/// The next piece of work of a run of creations.
#[derive(Debug)]
pub enum CreateRunAction<T> {
    /// Create the instance `request` asks for and run its creation code,
    /// collecting the creations that code requests.
    Create { request: T },
    /// The run is over: hand `remaining` back to the pass that made the
    /// requests, oldest first.
    HandBack { remaining: Vec<T> },
    Done,
}

impl<T> RuntimeCreateQueue<T> {
    /// Takes every waiting request off the queue, oldest first.
    fn take_all(&mut self) -> (r: Vec<T>)
        ensures
            r@ == old(self)@,
            final(self)@.len() == 0,
    {
        let mut taken: Vec<T> = Vec::new();
        std::mem::swap(&mut taken, &mut self.pending);
        taken
    }

    /// The next step of a run of creations: after a creation, the requests
    /// its code made (`requested`) are queued behind the rest, or, where a
    /// scene change is pending, the run stops and hands back those requests
    /// followed by the ones still waiting; then the oldest waiting request
    /// is created, or, where none waits, the run ends handing back nothing.
    pub fn next_create_step(&mut self, stage: CreateRunStage, requested: Vec<T>, scene_change_pending: bool) -> (r: (
        CreateRunStage,
        CreateRunAction<T>,
    ))
        ensures
            stage == CreateRunStage::Finished ==> r.0 == CreateRunStage::Finished && r.1 is Done && final(self)@
                == old(self)@,
            stage == CreateRunStage::Created && scene_change_pending ==> r.0 == CreateRunStage::Finished
                && final(self)@.len() == 0 && (r.1 matches CreateRunAction::HandBack { remaining } && remaining@
                == requested@ + old(self)@),
            stage != CreateRunStage::Finished && !(stage == CreateRunStage::Created && scene_change_pending) ==> {
                let waiting = if stage == CreateRunStage::Created {
                    old(self)@ + requested@
                } else {
                    old(self)@
                };
                if waiting.len() == 0 {
                    r.0 == CreateRunStage::Finished && final(self)@.len() == 0 && (r.1 matches CreateRunAction::HandBack {
                        remaining,
                    } && remaining@.len() == 0)
                } else {
                    r.0 == CreateRunStage::Created && final(self)@ == waiting.drop_first() && (r.1 matches CreateRunAction::Create {
                        request,
                    } && request == waiting[0])
                }
            },
    {
        match stage {
            CreateRunStage::Finished => {
                return (CreateRunStage::Finished, CreateRunAction::Done);
            },
            CreateRunStage::Created => {
                if !self.after_create(requested, scene_change_pending) {
                    let remaining = self.take_all();
                    return (CreateRunStage::Finished, CreateRunAction::HandBack { remaining });
                }
            },
            CreateRunStage::Next => {},
        }
        match self.next_create() {
            Some(request) => (CreateRunStage::Created, CreateRunAction::Create { request }),
            None => (CreateRunStage::Finished, CreateRunAction::HandBack { remaining: Vec::new() }),
        }
    }
}

} // verus!
