//! The authoritative server's state between ticks: a bounded ring of
//! the most recent snapshots, newest first.
//!
//! The threads, channels and sockets that drive the ring live with the
//! callers; here are the state transitions they rely on, each with its
//! contract: a tick pushes the freshly advanced snapshot and discards
//! the oldest past the bound, a join puts a new ship into the current
//! snapshot, and a leave takes a dead player's actor out of it.

use vstd::prelude::*;

use crate::actors::{Actor, ActorId, Game, Ship};
use crate::specs::GameSpec;
use crate::SERVER_GAMES;

verus! {

/// The bounded history of snapshots, newest at index 0.  Its view is
/// the sequence of games it holds; every operation keeps the length
/// between 1 and [`SERVER_GAMES`].
pub struct SnapshotRing {
    games: Vec<Game>,
}

impl View for SnapshotRing {
    type V = Seq<Game>;

    closed spec fn view(&self) -> Seq<Game> {
        self.games@
    }
}

impl SnapshotRing {
    /// A ring never runs empty and never outgrows the bound.
    pub open spec fn wf(self) -> bool {
        1 <= self@.len() <= SERVER_GAMES
    }

    /// A ring holding one initial snapshot.
    pub fn new(initial: Game) -> (r: SnapshotRing)
        ensures
            r@ =~= seq![initial],
            r.wf(),
    {
        let mut games: Vec<Game> = Vec::new();
        games.push(initial);
        SnapshotRing { games }
    }

    /// How many snapshots the ring holds.
    pub fn len(&self) -> (r: usize)
        ensures
            r == self@.len(),
    {
        self.games.len()
    }

    /// The authoritative current snapshot.
    pub fn front(&self) -> (r: &Game)
        requires
            self.wf(),
        ensures
            *r == self@[0],
    {
        &self.games[0]
    }

    /// Record a freshly advanced snapshot: it becomes the front, the
    /// rest shift back, and the oldest falls out once the ring is full.
    pub fn push(&mut self, game: Game)
        requires
            old(self).wf(),
        ensures
            final(self).wf(),
            final(self)@[0] == game,
            final(self)@.len() == if old(self)@.len() < SERVER_GAMES {
                old(self)@.len() + 1int
            } else {
                SERVER_GAMES as int
            },
            forall|i: int|
                1 <= i < final(self)@.len() ==> final(self)@[i] == old(self)@[i - 1],
    {
        if self.games.len() >= SERVER_GAMES {
            self.games.pop();
        }
        self.games.insert(0, game);
    }

    /// Let a new player join: a fresh ship goes into the current
    /// snapshot, and the caller learns its id.  Older snapshots stay as
    /// they were.
    pub fn join(&mut self, spec: &GameSpec) -> (r: ActorId)
        requires
            old(self).wf(),
            old(self)@[0].actors.spec_count() < ActorId::MAX,
        ensures
            final(self).wf(),
            final(self)@.len() == old(self)@.len(),
            r == old(self)@[0].actors.spec_count(),
            final(self)@[0].actors@ == old(self)@[0].actors@.push(
                (r, Actor::Ship(crate::actors::starting_ship(spec.ship_spec))),
            ),
            final(self)@[0].actors.spec_count() == old(self)@[0].actors.spec_count() + 1,
            final(self)@[0].time == old(self)@[0].time,
            forall|i: int| 1 <= i < final(self)@.len() ==> final(self)@[i] == old(self)@[i],
    {
        let mut front = self.games.remove(0);
        let player = front.add_ship(spec);
        self.games.insert(0, front);
        proof {
            assert(self.games@ =~= old(self)@.update(0, self.games@[0]));
        }
        player
    }

    /// Take a departed player's actor out of the current snapshot, if
    /// it is still there.  Older snapshots stay as they were.
    pub fn remove_actor(&mut self, actor_id: ActorId)
        requires
            old(self).wf(),
        ensures
            final(self).wf(),
            final(self)@.len() == old(self)@.len(),
            !crate::actors::seq_has_key(final(self)@[0].actors@, actor_id),
            final(self)@[0].actors.spec_count() == old(self)@[0].actors.spec_count(),
            final(self)@[0].time == old(self)@[0].time,
            forall|i: int| 1 <= i < final(self)@.len() ==> final(self)@[i] == old(self)@[i],
    {
        let mut front = self.games.remove(0);
        let _ = front.actors.remove(actor_id);
        self.games.insert(0, front);
        proof {
            assert(self.games@ =~= old(self)@.update(0, self.games@[0]));
        }
    }
}

} // verus!
