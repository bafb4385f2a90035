//! The runtime's own state between ticks: the package, the current room, the
//! status, the tick counter, the diagnostic log and the pending scene change,
//! with the decisions that move it from one tick to the next.

use vstd::prelude::*;

use crate::diagnostics::RuntimeDiagnostic;
use crate::helpers::{is_player_instance, spec_is_player_instance};
use crate::model::{RuntimeInstance, RuntimePackage, RuntimeRoomState};
use crate::room_transitions::{add_persistent_instances, spec_add_persistent, spec_same_room_but_instances};
use crate::frame::{
    build_render_frame, spec_frame_commands, spec_frame_fits, spec_frame_height, spec_frame_width, InstanceSprite,
    RoomLayout, RuntimeDrawCommand, RuntimeRenderFrame,
};
use crate::player::PlayerJumpState;
use crate::scene_change::PendingSceneChange;

verus! {

/// Where the runtime is: loaded and waiting, running ticks, or stopped by an
/// error.
#[derive(Clone, Copy, Debug, PartialEq, Eq)]
pub enum RuntimeStatus {
    Ready,
    Running,
    Error,
}

/// Why the runtime could not go on: the package has no rooms or no room is
/// loaded, or a room the runtime needs is not in the package.
#[derive(Clone, Copy, Debug, PartialEq, Eq)]
pub enum RuntimeCoreError {
    NoRooms,
    RoomMissing(usize),
}

/// The runtime: the package it plays, the room being played, its status, the
/// number of ticks run, its diagnostic log, and the scene change waiting to
/// be carried out.
pub struct RuntimeCore<N> {
    pub package: RuntimePackage,
    pub current_room: Option<RuntimeRoomState<N>>,
    pub status: RuntimeStatus,
    pub tick: u64,
    pub diagnostics: Vec<RuntimeDiagnostic>,
    pub pending: PendingSceneChange,
}

/// The room a runtime boots into: the package's default room where it names
/// one, else its first room.
pub open spec fn spec_default_room(manifest_default: Option<usize>, room_ids: Seq<usize>) -> Option<usize> {
    match manifest_default {
        Some(id) => Some(id),
        None => if room_ids.len() > 0 {
            Some(room_ids[0])
        } else {
            None
        },
    }
}

/// The room a runtime boots into (see [`spec_default_room`]); `NoRooms` where
/// there is none.
pub fn default_room_id(manifest_default: Option<usize>, room_ids: &Vec<usize>) -> (r: Result<usize, RuntimeCoreError>)
    ensures
        match spec_default_room(manifest_default, room_ids@) {
            Some(id) => r == Ok::<usize, RuntimeCoreError>(id),
            None => r == Err::<usize, RuntimeCoreError>(RuntimeCoreError::NoRooms),
        },
{
    match manifest_default {
        Some(id) => Ok(id),
        None => if room_ids.len() > 0 {
            Ok(room_ids[0])
        } else {
            Err(RuntimeCoreError::NoRooms)
        },
    }
}

/// The alive persistent instances that are not the player, in order.
pub open spec fn spec_reload_carried<N>(instances: Seq<RuntimeInstance<N>>) -> Seq<RuntimeInstance<N>>
    decreases instances.len(),
{
    if instances.len() == 0 {
        Seq::empty()
    } else {
        let rest = spec_reload_carried(instances.drop_last());
        let last = instances.last();
        if last.alive && last.persistent && !spec_is_player_instance(last) {
            rest.push(last)
        } else {
            rest
        }
    }
}

/// The alive persistent instances of `instances` other than the player, in
/// order (see [`spec_reload_carried`]).
fn reload_carried<N>(instances: Vec<RuntimeInstance<N>>) -> (r: Vec<RuntimeInstance<N>>)
    ensures
        r@ == spec_reload_carried(instances@),
{
    let ghost all = instances@;
    let mut rest = instances;
    let mut reversed: Vec<RuntimeInstance<N>> = Vec::new();
    while rest.len() > 0
        invariant
            all == rest@ + reversed@.reverse(),
        decreases rest@.len(),
    {
        let instance = rest.pop().unwrap();
        let ghost before = reversed@;
        reversed.push(instance);
        assert(reversed@.reverse() =~= seq![instance] + before.reverse());
    }
    assert(all =~= reversed@.reverse());
    let ghost n = all.len();
    let mut out: Vec<RuntimeInstance<N>> = Vec::new();
    assert(all.take(0) =~= Seq::<RuntimeInstance<N>>::empty());
    assert(all.skip(0) =~= all);
    while reversed.len() > 0
        invariant
            reversed@.len() <= n,
            all.len() == n,
            all.skip(n - reversed@.len()) == reversed@.reverse(),
            out@ == spec_reload_carried(all.take(n - reversed@.len())),
        decreases reversed@.len(),
    {
        let ghost k = n - reversed@.len();
        let ghost before = reversed@;
        let instance = reversed.pop().unwrap();
        proof {
            assert(before.reverse()[0] == before.last());
            assert(all.skip(k)[0] == all[k]);
            assert(all.skip(k + 1) =~= before.reverse().skip(1));
            assert(reversed@.reverse() =~= before.reverse().skip(1));
            assert(all.take(k + 1).drop_last() =~= all.take(k));
            assert(all.take(k + 1).last() == instance);
        }
        if instance.alive && instance.persistent && !is_player_instance(&instance) {
            out.push(instance);
        }
    }
    assert(all.take(n as int) =~= all);
    out
}

impl<N> RuntimeCore<N> {
    /// A runtime for `package`, booted into its default room (see
    /// [`Self::boot_default_room`]): `NoRooms` where the package has no rooms,
    /// and the error of building the room where that fails. `build_room`
    /// builds the room with the given id from the package's definitions.
    pub fn load<F>(package: RuntimePackage, build_room: F) -> (r: Result<Self, RuntimeCoreError>)
        where
            F: FnOnce(usize) -> Result<RuntimeRoomState<N>, RuntimeCoreError>,
        requires
            forall|id: usize| #[trigger] build_room.requires((id,)),
        ensures
            package.room_ids@.len() == 0 ==> r == Err::<Self, RuntimeCoreError>(RuntimeCoreError::NoRooms),
            package.room_ids@.len() > 0 ==> {
                let id = spec_default_room(package.default_room_id, package.room_ids@)->0;
                match r {
                    Ok(core) => {
                        &&& build_room.ensures((id,), Ok::<RuntimeRoomState<N>, RuntimeCoreError>(core.current_room->0))
                        &&& core.current_room is Some
                        &&& core.package == package
                        &&& core.status == RuntimeStatus::Ready
                        &&& core.tick == 0
                        &&& core.diagnostics@.len() == 0
                        &&& !core.pending.is_pending_spec()
                    },
                    Err(e) => build_room.ensures((id,), Err::<RuntimeRoomState<N>, RuntimeCoreError>(e)),
                }
            },
    {
        if package.room_ids.len() == 0 {
            return Err(RuntimeCoreError::NoRooms);
        }
        let mut core = RuntimeCore {
            package,
            current_room: None,
            status: RuntimeStatus::Ready,
            tick: 0,
            diagnostics: Vec::new(),
            pending: PendingSceneChange::none(),
        };
        match core.boot_default_room(build_room) {
            Ok(()) => Ok(core),
            Err(e) => Err(e),
        }
    }

    /// Loads the room the runtime boots into (see [`spec_default_room`]),
    /// built by `build_room`, as [`Self::enter_room`] does: `NoRooms` where
    /// there is none, and the error of building it where that fails, with
    /// the runtime unchanged.
    pub fn boot_default_room<F>(&mut self, build_room: F) -> (r: Result<(), RuntimeCoreError>)
        where
            F: FnOnce(usize) -> Result<RuntimeRoomState<N>, RuntimeCoreError>,
        requires
            forall|id: usize| #[trigger] build_room.requires((id,)),
        ensures
            final(self).package == old(self).package,
            final(self).diagnostics@ == old(self).diagnostics@,
            final(self).tick == old(self).tick,
            final(self).pending == old(self).pending,
            match spec_default_room(old(self).package.default_room_id, old(self).package.room_ids@) {
                None => r == Err::<(), RuntimeCoreError>(RuntimeCoreError::NoRooms) && final(self).current_room
                    == old(self).current_room && final(self).status == old(self).status,
                Some(id) => match r {
                    Ok(()) => {
                        &&& final(self).current_room is Some
                        &&& build_room.ensures(
                            (id,),
                            Ok::<RuntimeRoomState<N>, RuntimeCoreError>(final(self).current_room->0),
                        )
                        &&& final(self).status == RuntimeStatus::Ready
                    },
                    Err(e) => {
                        &&& build_room.ensures((id,), Err::<RuntimeRoomState<N>, RuntimeCoreError>(e))
                        &&& final(self).current_room == old(self).current_room
                        &&& final(self).status == old(self).status
                    },
                },
            },
    {
        let room_id = match default_room_id(self.package.default_room_id, &self.package.room_ids) {
            Ok(id) => id,
            Err(e) => return Err(e),
        };
        match build_room(room_id) {
            Ok(room) => {
                self.enter_room(room);
                Ok(())
            },
            Err(e) => Err(e),
        }
    }

    /// The runtime's status.
    pub fn status(&self) -> (r: RuntimeStatus)
        ensures
            r == self.status,
    {
        self.status
    }

    /// The number of ticks run.
    pub fn tick_count(&self) -> (r: u64)
        ensures
            r == self.tick,
    {
        self.tick
    }

    /// The room being played, if one is loaded.
    pub fn current_room(&self) -> (r: Option<&RuntimeRoomState<N>>)
        ensures
            match self.current_room {
                Some(room) => r == Some(&room),
                None => r is None,
            },
    {
        match &self.current_room {
            Some(room) => Some(room),
            None => None,
        }
    }

    /// The speed of the room being played, if one is loaded.
    pub fn current_room_speed(&self) -> (r: Option<u32>)
        ensures
            match self.current_room {
                Some(room) => r == Some(room.speed),
                None => r is None,
            },
    {
        match &self.current_room {
            Some(room) => Some(room.speed),
            None => None,
        }
    }

    /// The diagnostic log, oldest first.
    pub fn diagnostics(&self) -> (r: &[RuntimeDiagnostic])
        ensures
            r@ == self.diagnostics@,
    {
        self.diagnostics.as_slice()
    }

    /// Asks for a move to room `room_id` at the next scene change.
    pub fn request_room_transition(&mut self, room_id: usize)
        ensures
            final(self).pending == (PendingSceneChange { room_transition: Some(room_id), ..old(self).pending }),
            final(self).package == old(self).package,
            final(self).diagnostics@ == old(self).diagnostics@,
            final(self).current_room == old(self).current_room,
            final(self).status == old(self).status,
            final(self).tick == old(self).tick,
    {
        self.pending.request_room_transition(room_id);
    }

    /// Whether a scene change is waiting.
    pub fn has_pending_scene_change(&self) -> (r: bool)
        ensures
            r == self.pending.is_pending_spec(),
    {
        self.pending.has_pending_scene_change()
    }

    /// Starts a tick: without a room the runtime enters its error state and
    /// the tick fails with `NoRooms`; else the tick is counted and the runtime
    /// is running.
    pub fn begin_tick(&mut self) -> (r: Result<(), RuntimeCoreError>)
        requires
            old(self).tick < u64::MAX,
        ensures
            old(self).current_room is None ==> r == Err::<(), RuntimeCoreError>(RuntimeCoreError::NoRooms)
                && final(self).status == RuntimeStatus::Error && final(self).tick == old(self).tick,
            old(self).current_room is Some ==> r is Ok && final(self).status == RuntimeStatus::Running
                && final(self).tick == old(self).tick + 1,
            final(self).current_room == old(self).current_room,
            final(self).pending == old(self).pending,
            final(self).package == old(self).package,
            final(self).diagnostics@ == old(self).diagnostics@,
    {
        if self.current_room.is_none() {
            self.status = RuntimeStatus::Error;
            return Err(RuntimeCoreError::NoRooms);
        }
        self.tick = self.tick + 1;
        self.status = RuntimeStatus::Running;
        Ok(())
    }

    /// Makes `room`, freshly built, the room being played: the runtime is
    /// ready again.
    pub fn enter_room(&mut self, room: RuntimeRoomState<N>)
        ensures
            final(self).current_room == Some(room),
            final(self).status == RuntimeStatus::Ready,
            final(self).tick == old(self).tick,
            final(self).pending == old(self).pending,
            final(self).package == old(self).package,
            final(self).diagnostics@ == old(self).diagnostics@,
    {
        self.current_room = Some(room);
        self.status = RuntimeStatus::Ready;
    }

    /// Makes `room`, freshly built as a reload of the room being played, the
    /// current room, bringing along the alive persistent instances of the old
    /// room other than the player (see [`spec_reload_carried`] and
    /// [`spec_add_persistent`]); the runtime is ready again.
    pub fn enter_reloaded_room(&mut self, room: RuntimeRoomState<N>)
        ensures
            final(self).current_room matches Some(new_room) && {
                &&& spec_same_room_but_instances(room, new_room)
                &&& new_room.instances@ == spec_add_persistent(
                    room.instances@,
                    match old(self).current_room {
                        Some(old_room) => spec_reload_carried(old_room.instances@),
                        None => Seq::empty(),
                    },
                )
            },
            final(self).status == RuntimeStatus::Ready,
            final(self).tick == old(self).tick,
            final(self).pending == old(self).pending,
            final(self).package == old(self).package,
            final(self).diagnostics@ == old(self).diagnostics@,
    {
        let mut room = room;
        let previous = self.current_room.take();
        let carried: Vec<RuntimeInstance<N>> = match previous {
            Some(old_room) => reload_carried(old_room.instances),
            None => Vec::new(),
        };
        add_persistent_instances(&mut room, carried);
        self.current_room = Some(room);
        self.status = RuntimeStatus::Ready;
    }
}

/// The player as a snapshot shows it.
#[derive(Clone, Debug)]
pub struct RuntimePlayerSnapshot<N> {
    pub runtime_id: usize,
    pub instance_id: i32,
    pub object_id: usize,
    pub object_name: String,
    pub x: N,
    pub y: N,
    pub hspeed: N,
    pub vspeed: N,
    pub facing_left: bool,
    pub alive: bool,
    pub grounded: bool,
    pub jump: PlayerJumpState,
}

/// What the host can show of the runtime: its status and tick, the room,
/// its speed and number of instances, and the player.
#[derive(Clone, Debug)]
pub struct RuntimeSnapshot<N> {
    pub status: RuntimeStatus,
    pub tick: u64,
    pub room_id: Option<usize>,
    pub room_name: Option<String>,
    pub room_speed: Option<u32>,
    pub instance_count: usize,
    pub player: Option<RuntimePlayerSnapshot<N>>,
}

/// The position of the first player instance, if any.
pub open spec fn spec_first_player<N>(instances: Seq<RuntimeInstance<N>>) -> Option<int>
    decreases instances.len(),
{
    if instances.len() == 0 {
        None
    } else {
        match spec_first_player(instances.drop_last()) {
            Some(i) => Some(i),
            None => if spec_is_player_instance(instances.last()) {
                Some(instances.len() - 1)
            } else {
                None
            },
        }
    }
}

proof fn lemma_first_player_prefix<N>(instances: Seq<RuntimeInstance<N>>, k: int)
    requires
        0 <= k <= instances.len(),
        spec_first_player(instances.take(k)) is Some,
    ensures
        spec_first_player(instances) == spec_first_player(instances.take(k)),
    decreases instances.len(),
{
    if k < instances.len() {
        assert(instances.drop_last().take(k) =~= instances.take(k));
        lemma_first_player_prefix(instances.drop_last(), k);
    } else {
        assert(instances.take(k) =~= instances);
    }
}

proof fn lemma_first_player_in_range<N>(instances: Seq<RuntimeInstance<N>>)
    ensures
        spec_first_player(instances) matches Some(i) ==> 0 <= i < instances.len()
            && spec_is_player_instance(instances[i]),
    decreases instances.len(),
{
    if instances.len() > 0 {
        lemma_first_player_in_range(instances.drop_last());
    }
}

/// The position of the first player instance (see [`spec_first_player`]).
pub fn first_player_index<N>(instances: &Vec<RuntimeInstance<N>>) -> (r: Option<usize>)
    ensures
        match spec_first_player(instances@) {
            Some(i) => r == Some(i as usize) && 0 <= i < instances@.len(),
            None => r is None,
        },
{
    proof { lemma_first_player_in_range(instances@); }
    let mut i: usize = 0;
    while i < instances.len()
        invariant
            i <= instances@.len(),
            spec_first_player(instances@.take(i as int)) is None,
        decreases instances@.len() - i,
    {
        assert(instances@.take(i + 1).drop_last() =~= instances@.take(i as int));
        if is_player_instance(&instances[i]) {
            proof {
                assert(instances@.take(i + 1).last() == instances@[i as int]);
                lemma_first_player_prefix(instances@, i + 1);
            }
            return Some(i);
        }
        i = i + 1;
    }
    assert(instances@.take(i as int) =~= instances@);
    None
}

impl<N: Copy> RuntimeCore<N> {
    /// The frame of the current room (see [`build_render_frame`]), drawn
    /// from `layout`, the instances' `sprites` and the draw events'
    /// commands; `NoRooms` where no room is loaded.
    pub fn render(
        &self,
        layout: &RoomLayout<N>,
        sprites: &Vec<InstanceSprite<N>>,
        draw_commands: Vec<RuntimeDrawCommand<N>>,
        display: Option<(u32, u32)>,
    ) -> (r: Result<RuntimeRenderFrame<N>, RuntimeCoreError>)
        requires
            self.current_room matches Some(room) ==> sprites@.len() == room.instances@.len() && spec_frame_fits(
                room,
                *layout,
                sprites@,
            ),
        ensures
            self.current_room is None ==> r == Err::<RuntimeRenderFrame<N>, RuntimeCoreError>(RuntimeCoreError::NoRooms),
            self.current_room matches Some(room) ==> (r matches Ok(frame) && {
                &&& frame.tick == self.tick
                &&& frame.room_id == Some(room.room_id)
                &&& frame.width == spec_frame_width(room, display)
                &&& frame.height == spec_frame_height(room, display)
                &&& frame.commands@ == spec_frame_commands(room, *layout, sprites@, draw_commands@)
            }),
    {
        match &self.current_room {
            None => Err(RuntimeCoreError::NoRooms),
            Some(room) => Ok(build_render_frame(self.tick, room, layout, sprites, draw_commands, display)),
        }
    }

    /// A snapshot of the runtime; `jump` is the player's jump state and
    /// `grounded` whether it stands on a solid.
    pub fn snapshot(&self, jump: PlayerJumpState, grounded: bool) -> (r: RuntimeSnapshot<N>)
        ensures
            r.status == self.status,
            r.tick == self.tick,
            match self.current_room {
                None => r.room_id is None && r.room_name is None && r.room_speed is None && r.instance_count == 0
                    && r.player is None,
                Some(room) => {
                    &&& r.room_id == Some(room.room_id)
                    &&& r.room_name matches Some(name) && name@ == room.room_name@
                    &&& r.room_speed == Some(room.speed)
                    &&& r.instance_count == room.instances@.len()
                    &&& match spec_first_player(room.instances@) {
                        None => r.player is None,
                        Some(i) => r.player matches Some(p) && {
                            let inst = room.instances@[i];
                            &&& p.runtime_id == inst.runtime_id && p.instance_id == inst.instance_id
                            &&& p.object_id == inst.object_id && p.object_name@ == inst.object_name@
                            &&& p.x == inst.x && p.y == inst.y && p.hspeed == inst.hspeed && p.vspeed == inst.vspeed
                            &&& p.facing_left == inst.facing_left && p.alive == inst.alive
                            &&& p.grounded == grounded && p.jump == jump
                        },
                    }
                },
            },
    {
        match &self.current_room {
            None => RuntimeSnapshot {
                status: self.status,
                tick: self.tick,
                room_id: None,
                room_name: None,
                room_speed: None,
                instance_count: 0,
                player: None,
            },
            Some(room) => {
                let player = match first_player_index(&room.instances) {
                    None => None,
                    Some(i) => {
                        let inst = &room.instances[i];
                        Some(
                            RuntimePlayerSnapshot {
                                runtime_id: inst.runtime_id,
                                instance_id: inst.instance_id,
                                object_id: inst.object_id,
                                object_name: inst.object_name.clone(),
                                x: inst.x,
                                y: inst.y,
                                hspeed: inst.hspeed,
                                vspeed: inst.vspeed,
                                facing_left: inst.facing_left,
                                alive: inst.alive,
                                grounded,
                                jump,
                            },
                        )
                    },
                };
                RuntimeSnapshot {
                    status: self.status,
                    tick: self.tick,
                    room_id: Some(room.room_id),
                    room_name: Some(room.room_name.clone()),
                    room_speed: Some(room.speed),
                    instance_count: room.instances.len(),
                    player,
                }
            },
        }
    }
}

/// A runtime boots into the room its manifest names where it names one,
/// else into the package's first room, and into none only where it names
/// none and has no rooms.
pub proof fn law_boot_room(manifest_default: Option<usize>, room_ids: Seq<usize>)
    ensures
        manifest_default matches Some(id) ==> spec_default_room(manifest_default, room_ids) == Some(id),
        manifest_default is None && room_ids.len() > 0 ==> spec_default_room(manifest_default, room_ids) == Some(
            room_ids[0],
        ),
        spec_default_room(manifest_default, room_ids) is None <==> manifest_default is None && room_ids.len() == 0,
{
}

/// A reload carries over only alive persistent instances that are not the
/// player, and every one of them, in room order.
pub proof fn law_reload_carries_live_persistent_non_players<N>(instances: Seq<RuntimeInstance<N>>, x: RuntimeInstance<N>)
    ensures
        spec_reload_carried(instances).contains(x) <==> instances.contains(x) && x.alive && x.persistent
            && !spec_is_player_instance(x),
    decreases instances.len(),
{
    if instances.len() > 0 {
        let prev = instances.drop_last();
        law_reload_carries_live_persistent_non_players(prev, x);
        let rest = spec_reload_carried(prev);
        let last = instances.last();
        if instances.contains(x) && x != last {
            let i = choose|i: int| 0 <= i < instances.len() && instances[i] == x;
            assert(i < prev.len());
            assert(prev[i] == x);
        }
        if prev.contains(x) {
            let i = choose|i: int| 0 <= i < prev.len() && prev[i] == x;
            assert(instances[i] == x);
        }
        if x == last {
            assert(instances[instances.len() - 1] == x);
        }
        if last.alive && last.persistent && !spec_is_player_instance(last) {
            let pushed = rest.push(last);
            if pushed.contains(x) && x != last {
                let i = choose|i: int| 0 <= i < pushed.len() && pushed[i] == x;
                assert(rest[i] == x);
            }
            if rest.contains(x) {
                let i = choose|i: int| 0 <= i < rest.len() && rest[i] == x;
                assert(pushed[i] == x);
            }
            if x == last {
                assert(pushed[rest.len() as int] == x);
            }
        }
    }
}

} // verus!
