//! Pending scene changes: what running code and the restart button ask for,
//! and the room changes that carry them out.

use vstd::prelude::*;

verus! {

/// The scene changes waiting for the end of the current phase: a restart of
/// the game, a reset of the current room, and a move to another room.
#[derive(Clone, Copy, Debug, Default, PartialEq, Eq)]
pub struct PendingSceneChange {
    pub game_restart: bool,
    pub room_reset: bool,
    pub room_transition: Option<usize>,
}

/// A room change that carries out what was pending.
#[derive(Clone, Copy, Debug, PartialEq, Eq)]
pub enum RoomChange {
    /// Clear the globals and load the first room.
    GameRestart,
    /// Load the current room again and put the player at its spawn.
    RoomReset,
    /// Load room `room_id`, bringing the persistent instances along.
    Transition { room_id: usize },
}

/// The room changes that carry out `p`, in order: a game restart alone where
/// one is pending (it drops the others); else a room reset where one is
/// pending, then a move where one is pending.
pub open spec fn spec_room_changes(p: PendingSceneChange) -> Seq<RoomChange> {
    if p.game_restart {
        seq![RoomChange::GameRestart]
    } else {
        (if p.room_reset {
            seq![RoomChange::RoomReset]
        } else {
            Seq::empty()
        }) + match p.room_transition {
            Some(room_id) => seq![RoomChange::Transition { room_id }],
            None => Seq::empty(),
        }
    }
}

impl PendingSceneChange {
    /// Nothing pending.
    pub fn none() -> (r: Self)
        ensures
            !r.is_pending_spec(),
    {
        PendingSceneChange { game_restart: false, room_reset: false, room_transition: None }
    }

    /// Some scene change is pending.
    pub open spec fn is_pending_spec(&self) -> bool {
        self.game_restart || self.room_reset || self.room_transition is Some
    }

    /// Whether some scene change is pending.
    pub fn has_pending_scene_change(&self) -> (r: bool)
        ensures
            r == self.is_pending_spec(),
    {
        self.game_restart || self.room_reset || self.room_transition.is_some()
    }

    /// `room_goto` or `room_goto_next` found room `room_id`: a move there
    /// replaces any pending restart or reset.
    pub fn request_room_goto(&mut self, room_id: usize)
        ensures
            *final(self) == (PendingSceneChange {
                game_restart: false,
                room_reset: false,
                room_transition: Some(room_id),
            }),
    {
        self.game_restart = false;
        self.room_reset = false;
        self.room_transition = Some(room_id);
    }

    /// `game_restart` ran: a restart replaces any pending reset or move.
    pub fn request_game_restart(&mut self)
        ensures
            *final(self) == (PendingSceneChange { game_restart: true, room_reset: false, room_transition: None }),
    {
        self.room_transition = None;
        self.room_reset = false;
        self.game_restart = true;
    }

    /// The restart button asked for the room to start over.
    pub fn request_room_reset(&mut self)
        ensures
            *final(self) == (PendingSceneChange { room_reset: true, ..*old(self) }),
    {
        self.room_reset = true;
    }

    /// The host asked for a move to room `room_id`.
    pub fn request_room_transition(&mut self, room_id: usize)
        ensures
            *final(self) == (PendingSceneChange { room_transition: Some(room_id), ..*old(self) }),
    {
        self.room_transition = Some(room_id);
    }

    /// The room changes that carry out what is pending (see
    /// [`spec_room_changes`]); afterwards nothing is pending.
    pub fn take_room_changes(&mut self) -> (r: Vec<RoomChange>)
        ensures
            r@ == spec_room_changes(*old(self)),
            *final(self) == (PendingSceneChange { game_restart: false, room_reset: false, room_transition: None }),
    {
        let mut changes: Vec<RoomChange> = Vec::new();
        if self.game_restart {
            changes.push(RoomChange::GameRestart);
            assert(changes@ =~= seq![RoomChange::GameRestart]);
        } else {
            if self.room_reset {
                changes.push(RoomChange::RoomReset);
            }
            match self.room_transition {
                Some(room_id) => changes.push(RoomChange::Transition { room_id }),
                None => {},
            }
            assert(changes@ =~= spec_room_changes(*old(self)));
        }
        self.game_restart = false;
        self.room_reset = false;
        self.room_transition = None;
        changes
    }
}

/// The last of a `room_goto` and a `game_restart` wins: after either, the
/// changes carried out are exactly the one it asked for, whatever was pending
/// before.
pub proof fn law_last_scene_request_wins(room_id: usize)
    ensures
        spec_room_changes(PendingSceneChange { game_restart: false, room_reset: false, room_transition: Some(room_id) })
            == seq![RoomChange::Transition { room_id }],
        spec_room_changes(PendingSceneChange { game_restart: true, room_reset: false, room_transition: None })
            == seq![RoomChange::GameRestart],
{
    assert(Seq::<RoomChange>::empty() + seq![RoomChange::Transition { room_id }] =~= seq![RoomChange::Transition { room_id }]);
}

/// Something is carried out exactly when something is pending, and a reset
/// comes before a move.
pub proof fn law_room_changes_match_what_is_pending(p: PendingSceneChange)
    ensures
        (spec_room_changes(p).len() > 0) <==> p.is_pending_spec(),
        !p.game_restart && p.room_reset && p.room_transition is Some ==> spec_room_changes(p)
            == seq![RoomChange::RoomReset, RoomChange::Transition { room_id: p.room_transition->0 }],
{
    if !p.game_restart && p.room_reset && p.room_transition is Some {
        assert(seq![RoomChange::RoomReset] + seq![RoomChange::Transition { room_id: p.room_transition->0 }]
            =~= seq![RoomChange::RoomReset, RoomChange::Transition { room_id: p.room_transition->0 }]);
    }
}

} // verus!
