//! The live entities of a game and the registry that owns them.
//!
//! The registry issues actor ids from a monotone counter, so ids are
//! never reused within a game; its well-formedness (no duplicate ids,
//! every id below the counter) is a type invariant, stated publicly by
//! [`Actors::wf`] and re-asserted in the contracts of every operation.

use vstd::prelude::*;

use crate::geom::{Real32, Transform, Vec2};
use crate::input::{Input, Rotating};
use crate::specs::{GameSpec, SpecId};

verus! {

/// A ship's chase camera: where the viewport sits and how it moves.
#[derive(PartialEq, Eq, Structural, Clone, Copy, Debug)]
pub struct Camera {
    pub pos: Vec2,
    pub vel: Vec2,
}

impl Camera {
    /// The transform that carries world points into this camera's view:
    /// a pure translation to the camera's corner.
    pub fn transform(&self) -> (r: Transform)
        ensures
            r == (Transform { pos: self.pos, rotation: Real32 { bits: 0 } }),
    {
        Transform { pos: self.pos, rotation: Real32 { bits: 0 } }
    }
}

/// A bullet in flight.
#[derive(PartialEq, Eq, Structural, Clone, Copy, Debug)]
pub struct Bullet {
    pub spec: SpecId,
    pub trans: Transform,
    pub age: Real32,
}

/// A player's ship.
#[derive(PartialEq, Eq, Structural, Clone, Copy, Debug)]
pub struct Ship {
    pub spec: SpecId,
    pub trans: Transform,
    pub vel: Vec2,
    /// Seconds since the ship last fired, as an IEEE-754 single.
    pub not_firing_for: Real32,
    pub accel: bool,
    pub rotating: Rotating,
    pub camera: Camera,
}

/// The ship a new joiner starts with: mid-screen, at rest, camera at
/// the origin, free to fire at once.
pub open spec fn starting_ship(spec_id: SpecId) -> Ship {
    Ship {
        spec: spec_id,
        trans: Transform {
            pos: Vec2 { x: Real32 { bits: SHIP_START_X }, y: Real32 { bits: SHIP_START_Y } },
            rotation: Real32 { bits: 0 },
        },
        vel: Vec2 { x: Real32 { bits: 0 }, y: Real32 { bits: 0 } },
        not_firing_for: Real32 { bits: NOT_FIRING_FOR_START },
        accel: false,
        rotating: Rotating::Still,
        camera: Camera {
            pos: Vec2 { x: Real32 { bits: 0 }, y: Real32 { bits: 0 } },
            vel: Vec2 { x: Real32 { bits: 0 }, y: Real32 { bits: 0 } },
        },
    }
}

/// Bit pattern of the IEEE-754 single 400, half the viewport width.
pub const SHIP_START_X: u32 = 0x43C8_0000;

/// Bit pattern of the IEEE-754 single 300, half the viewport height.
pub const SHIP_START_Y: u32 = 0x4396_0000;

/// Bit pattern of the IEEE-754 single 100000: a fresh ship has not
/// fired for a very long time, so it may fire at once.
pub const NOT_FIRING_FOR_START: u32 = 0x47C3_5000;

impl Ship {
    /// A fresh ship of the given kind, at rest at `pos`, free to fire.
    /// The caller places the camera corner so the ship sits mid-screen.
    pub fn new(spec_id: SpecId, pos: Vec2, camera_pos: Vec2) -> (r: Ship)
        ensures
            r == (Ship {
                spec: spec_id,
                trans: Transform { pos, rotation: Real32 { bits: 0 } },
                vel: Vec2 { x: Real32 { bits: 0 }, y: Real32 { bits: 0 } },
                not_firing_for: Real32 { bits: NOT_FIRING_FOR_START },
                accel: false,
                rotating: Rotating::Still,
                camera: Camera {
                    pos: camera_pos,
                    vel: Vec2 { x: Real32 { bits: 0 }, y: Real32 { bits: 0 } },
                },
            }),
    {
        Ship {
            spec: spec_id,
            trans: Transform::pos(pos),
            vel: Vec2::zero(),
            not_firing_for: Real32 { bits: NOT_FIRING_FOR_START },
            accel: false,
            rotating: Rotating::Still,
            camera: Camera { pos: camera_pos, vel: Vec2::zero() },
        }
    }
}

/// A fixed emplacement that fires bullets on a cadence.
#[derive(PartialEq, Eq, Structural, Clone, Copy, Debug)]
pub struct Shooter {
    pub spec: SpecId,
    pub time_since_fire: Real32,
}

/// Any live entity.
#[derive(PartialEq, Eq, Structural, Clone, Copy, Debug)]
pub enum Actor {
    Ship(Ship),
    Shooter(Shooter),
    Bullet(Bullet),
}

impl Actor {
    /// The ship inside.  Asking this of another variant is a
    /// programming error, so callers must rule it out.
    pub fn is_ship(&self) -> (r: &Ship)
        requires
            self is Ship,
        ensures
            *self == Actor::Ship(*r),
    {
        match self {
            Actor::Ship(ship) => ship,
            _ => unreached(),
        }
    }
}

pub type ActorId = u32;

// ---------------------------------------------------------------------
// The registry.

/// No id occurs twice among the pairs.
pub open spec fn unique_keys(s: Seq<(ActorId, Actor)>) -> bool {
    forall|i: int, j: int| 0 <= i < j < s.len() ==> s[i].0 != s[j].0
}

/// Every id among the pairs lies below the counter.
pub open spec fn keys_below(s: Seq<(ActorId, Actor)>, count: ActorId) -> bool {
    forall|i: int| 0 <= i < s.len() ==> (#[trigger] s[i]).0 < count
}

/// Whether some pair carries the id.
pub open spec fn seq_has_key(s: Seq<(ActorId, Actor)>, id: ActorId) -> bool {
    exists|i: int| 0 <= i < s.len() && (#[trigger] s[i]).0 == id
}

/// The index of the pair carrying the id (meaningful when it exists).
pub open spec fn key_index(s: Seq<(ActorId, Actor)>, id: ActorId) -> int {
    choose|i: int| 0 <= i < s.len() && (#[trigger] s[i]).0 == id
}

/// What the registry associates with the id.
pub open spec fn seq_lookup(s: Seq<(ActorId, Actor)>, id: ActorId) -> Option<Actor> {
    if seq_has_key(s, id) {
        Some(s[key_index(s, id)].1)
    } else {
        None
    }
}

/// The registry of live actors: insertion-ordered id/actor pairs plus
/// the counter from which fresh ids are issued.  Its view is the
/// sequence of pairs.
#[derive(PartialEq, Debug)]
pub struct Actors {
    pairs: Vec<(ActorId, Actor)>,
    count: ActorId,
}

impl Clone for Actors {
    /// A clone carries the same pairs and the same counter.
    fn clone(&self) -> (r: Self)
        ensures
            r@ == self@,
            r.spec_count() == self.spec_count(),
    {
        proof {
            use_type_invariant(self);
        }
        let n = self.pairs.len();
        let mut pairs: Vec<(ActorId, Actor)> = Vec::new();
        let mut i: usize = 0;
        proof {
            assert(pairs@ =~= self.pairs@.take(0));
        }
        while i < n
            invariant
                n == self.pairs@.len(),
                i <= n,
                pairs@ == self.pairs@.take(i as int),
            decreases n - i,
        {
            pairs.push(self.pairs[i]);
            proof {
                assert(pairs@ =~= self.pairs@.take(i as int + 1));
            }
            i = i + 1;
        }
        proof {
            assert(pairs@ =~= self.pairs@);
        }
        Actors { pairs, count: self.count }
    }
}

impl View for Actors {
    type V = Seq<(ActorId, Actor)>;

    closed spec fn view(&self) -> Seq<(ActorId, Actor)> {
        self.pairs@
    }
}

impl Actors {
    /// The next id the registry will issue.
    pub closed spec fn spec_count(self) -> ActorId {
        self.count
    }

    /// Ids are unique and all lie below the counter.  This holds of
    /// every registry the crate hands out.
    pub open spec fn wf(self) -> bool {
        unique_keys(self@) && keys_below(self@, self.spec_count())
    }

    #[verifier::type_invariant]
    spec fn inv(self) -> bool {
        self.wf()
    }

    /// The empty registry; the first id issued will be 0.
    pub fn new() -> (r: Actors)
        ensures
            r@ == Seq::<(ActorId, Actor)>::empty(),
            r.spec_count() == 0,
            r.wf(),
    {
        Actors { pairs: Vec::new(), count: 0 }
    }

    /// An empty registry that goes on counting where `prev` stood, so
    /// ids issued next are fresh with respect to `prev` as well.
    pub fn prepare_new(prev: &Actors) -> (r: Actors)
        ensures
            r@ == Seq::<(ActorId, Actor)>::empty(),
            r.spec_count() == prev.spec_count(),
            r.wf(),
    {
        Actors { pairs: Vec::new(), count: prev.count }
    }

    /// How many actors live here.
    pub fn len(&self) -> (r: usize)
        ensures
            r == self@.len(),
    {
        self.pairs.len()
    }

    /// The counter, as a value.
    pub fn count(&self) -> (r: ActorId)
        ensures
            r == self.spec_count(),
    {
        self.count
    }

    /// The pair at a position, in insertion order.
    pub fn pair_at(&self, i: usize) -> (r: &(ActorId, Actor))
        requires
            i < self@.len(),
        ensures
            *r == self@[i as int],
    {
        &self.pairs[i]
    }

    /// Where the pair carrying the id sits, if anywhere.
    fn find_index(&self, actor_id: ActorId) -> (r: Option<usize>)
        ensures
            match r {
                Some(i) => i < self@.len() && self@[i as int].0 == actor_id && i as int
                    == key_index(self@, actor_id) && seq_has_key(self@, actor_id),
                None => !seq_has_key(self@, actor_id),
            },
    {
        proof {
            use_type_invariant(self);
        }
        let n = self.pairs.len();
        let mut i: usize = 0;
        while i < n
            invariant
                n == self@.len(),
                i <= n,
                forall|k: int| 0 <= k < i ==> (#[trigger] self@[k]).0 != actor_id,
                self.wf(),
            decreases n - i,
        {
            if self.pairs[i].0 == actor_id {
                proof {
                    assert(seq_has_key(self@, actor_id));
                    let ki = key_index(self@, actor_id);
                    assert(0 <= ki < self@.len() && self@[ki].0 == actor_id);
                    assert(ki == i as int);
                }
                return Some(i);
            }
            i = i + 1;
        }
        proof {
            assert(!seq_has_key(self@, actor_id)) by {
                if seq_has_key(self@, actor_id) {
                    let ki = key_index(self@, actor_id);
                    assert(0 <= ki < self@.len() && self@[ki].0 == actor_id);
                }
            }
        }
        None
    }

    /// Register an actor under a fresh id and hand the id back.
    pub fn add(&mut self, actor: Actor) -> (r: ActorId)
        requires
            old(self).spec_count() < ActorId::MAX,
        ensures
            r == old(self).spec_count(),
            final(self)@ == old(self)@.push((r, actor)),
            final(self).spec_count() == old(self).spec_count() + 1,
            final(self).wf(),
            !seq_has_key(old(self)@, r),
    {
        proof {
            use_type_invariant(&*self);
        }
        let actor_id = self.count;
        let mut pairs: Vec<(ActorId, Actor)> = Vec::new();
        std::mem::swap(&mut pairs, &mut self.pairs);
        pairs.push((actor_id, actor));
        proof {
            assert forall|i: int, j: int| 0 <= i < j < pairs@.len() implies pairs@[i].0
                != pairs@[j].0 by {
                if j + 1 == pairs@.len() {
                    assert(pairs@[i] == old(self)@[i]);
                }
            }
        }
        self.count = self.count + 1;
        self.pairs = pairs;
        actor_id
    }

    /// Store an actor under an id the registry has already issued.  An
    /// existing actor under that id is replaced in place; otherwise the
    /// pair goes to the back.
    pub fn insert(&mut self, actor_id: ActorId, actor: Actor)
        requires
            actor_id < old(self).spec_count(),
        ensures
            final(self).spec_count() == old(self).spec_count(),
            final(self).wf(),
            seq_has_key(old(self)@, actor_id) ==> final(self)@ == old(self)@.update(
                key_index(old(self)@, actor_id),
                (actor_id, actor),
            ),
            !seq_has_key(old(self)@, actor_id) ==> final(self)@ == old(self)@.push(
                (actor_id, actor),
            ),
    {
        proof {
            use_type_invariant(&*self);
        }
        let mb_index = self.find_index(actor_id);
        let mut pairs: Vec<(ActorId, Actor)> = Vec::new();
        std::mem::swap(&mut pairs, &mut self.pairs);
        match mb_index {
            Some(i) => {
                pairs.set(i, (actor_id, actor));
                proof {
                    assert forall|a: int, b: int| 0 <= a < b < pairs@.len() implies pairs@[a].0
                        != pairs@[b].0 by {
                        assert(old(self)@[a].0 != old(self)@[b].0);
                    }
                }
            },
            None => {
                pairs.push((actor_id, actor));
                proof {
                    assert forall|a: int, b: int| 0 <= a < b < pairs@.len() implies pairs@[a].0
                        != pairs@[b].0 by {
                        if b + 1 == pairs@.len() {
                            assert(pairs@[a] == old(self)@[a]);
                        }
                    }
                }
            },
        }
        self.pairs = pairs;
    }

    /// Take the actor registered under the id out, if any.
    pub fn remove(&mut self, actor_id: ActorId) -> (r: Option<Actor>)
        ensures
            final(self).spec_count() == old(self).spec_count(),
            final(self).wf(),
            seq_has_key(old(self)@, actor_id) ==> r == Some(
                old(self)@[key_index(old(self)@, actor_id)].1,
            ) && final(self)@ == old(self)@.remove(key_index(old(self)@, actor_id)),
            !seq_has_key(old(self)@, actor_id) ==> r is None && final(self)@ == old(self)@,
            !seq_has_key(final(self)@, actor_id),
    {
        proof {
            use_type_invariant(&*self);
        }
        let mb_index = self.find_index(actor_id);
        match mb_index {
            Some(i) => {
                let mut pairs: Vec<(ActorId, Actor)> = Vec::new();
                std::mem::swap(&mut pairs, &mut self.pairs);
                let pair = pairs.remove(i);
                proof {
                    assert forall|a: int, b: int| 0 <= a < b < pairs@.len() implies pairs@[a].0
                        != pairs@[b].0 by {
                        let wide_a = if a < i as int {
                            a
                        } else {
                            a + 1
                        };
                        let wide_b = if b < i as int {
                            b
                        } else {
                            b + 1
                        };
                        assert(old(self)@[wide_a].0 != old(self)@[wide_b].0);
                    }
                    assert forall|k: int| 0 <= k < pairs@.len() implies (#[trigger] pairs@[k]).0
                        < self.spec_count() by {
                        let wide = if k < i as int {
                            k
                        } else {
                            k + 1
                        };
                        assert(old(self)@[wide].0 < old(self).spec_count());
                    }
                    assert forall|k: int| 0 <= k < pairs@.len() implies (#[trigger] pairs@[k]).0
                        != actor_id by {
                        let wide = if k < i as int {
                            k
                        } else {
                            k + 1
                        };
                        assert(pairs@[k] == old(self)@[wide]);
                        if wide != i as int {
                            assert(old(self)@[wide].0 != old(self)@[i as int].0);
                        }
                    }
                }
                self.pairs = pairs;
                Some(pair.1)
            },
            None => None,
        }
    }

    /// Borrow the actor registered under the id, if any.
    pub fn get(&self, actor_id: ActorId) -> (r: Option<&Actor>)
        ensures
            match r {
                Some(actor) => seq_lookup(self@, actor_id) == Some(*actor),
                None => seq_lookup(self@, actor_id) is None,
            },
    {
        match self.find_index(actor_id) {
            Some(i) => Some(&self.pairs[i].1),
            None => None,
        }
    }

    /// The ids, in insertion order.
    pub fn keys(&self) -> (r: Vec<ActorId>)
        ensures
            r@.len() == self@.len(),
            forall|i: int| 0 <= i < r@.len() ==> r@[i] == (#[trigger] self@[i]).0,
    {
        let n = self.pairs.len();
        let mut out: Vec<ActorId> = Vec::new();
        let mut i: usize = 0;
        while i < n
            invariant
                n == self@.len(),
                i <= n,
                out@.len() == i,
                forall|k: int| 0 <= k < i ==> out@[k] == (#[trigger] self@[k]).0,
            decreases n - i,
        {
            out.push(self.pairs[i].0);
            i = i + 1;
        }
        out
    }

    /// The actors, in insertion order.
    pub fn values(&self) -> (r: Vec<Actor>)
        ensures
            r@.len() == self@.len(),
            forall|i: int| 0 <= i < r@.len() ==> r@[i] == (#[trigger] self@[i]).1,
    {
        let n = self.pairs.len();
        let mut out: Vec<Actor> = Vec::new();
        let mut i: usize = 0;
        while i < n
            invariant
                n == self@.len(),
                i <= n,
                out@.len() == i,
                forall|k: int| 0 <= k < i ==> out@[k] == (#[trigger] self@[k]).1,
            decreases n - i,
        {
            out.push(self.pairs[i].1);
            i = i + 1;
        }
        out
    }

    /// Rebuild a registry from raw pairs and a counter, as the wire
    /// decoder must.  Succeeds exactly when the pairs are well-formed
    /// for that counter; the pairs keep their order.
    pub fn from_pairs(pairs: Vec<(ActorId, Actor)>, count: ActorId) -> (r: Option<Actors>)
        ensures
            unique_keys(pairs@) && keys_below(pairs@, count) ==> (r matches Some(a) && a@ == pairs@
                && a.spec_count() == count),
            !(unique_keys(pairs@) && keys_below(pairs@, count)) ==> r is None,
    {
        let n = pairs.len();
        let mut i: usize = 0;
        while i < n
            invariant
                n == pairs@.len(),
                i <= n,
                forall|a: int, b: int| 0 <= a < b < i ==> pairs@[a].0 != pairs@[b].0,
                forall|a: int| 0 <= a < i ==> (#[trigger] pairs@[a]).0 < count,
            decreases n - i,
        {
            if pairs[i].0 >= count {
                return None;
            }
            let mut j: usize = 0;
            while j < i
                invariant
                    i < n,
                    n == pairs@.len(),
                    j <= i,
                    forall|a: int| 0 <= a < j ==> pairs@[a].0 != pairs@[i as int].0,
                decreases i - j,
            {
                if pairs[j].0 == pairs[i].0 {
                    return None;
                }
                j = j + 1;
            }
            i = i + 1;
        }
        Some(Actors { pairs, count })
    }
}

// ---------------------------------------------------------------------
// Inputs addressed to actors, and the game itself.

/// An input tagged with the actor it steers.
#[derive(PartialEq, Eq, Structural, Clone, Copy, Debug)]
pub struct PlayerInput {
    pub player: ActorId,
    pub input: Input,
}

/// The input a batch holds for an actor: of several inputs for the same
/// actor within one tick, the last wins.
pub open spec fn lookup_input(s: Seq<PlayerInput>, id: ActorId) -> Option<Input>
    decreases s.len(),
{
    if s.len() == 0 {
        None
    } else if s.last().player == id {
        Some(s.last().input)
    } else {
        lookup_input(s.drop_last(), id)
    }
}

impl PlayerInput {
    /// Find the input addressed to an actor in a tick's batch; of
    /// duplicates, the last wins.
    pub fn lookup(inputs: &Vec<PlayerInput>, actor_id: ActorId) -> (r: Option<Input>)
        ensures
            r == lookup_input(inputs@, actor_id),
    {
        let n = inputs.len();
        let mut i: usize = n;
        proof {
            assert(inputs@.take(n as int) =~= inputs@);
        }
        while i > 0
            invariant
                n == inputs@.len(),
                i <= n,
                lookup_input(inputs@, actor_id) == lookup_input(
                    inputs@.take(i as int),
                    actor_id,
                ),
            decreases i,
        {
            i = i - 1;
            if inputs[i].player == actor_id {
                proof {
                    assert(inputs@.take(i as int + 1).last() == inputs@[i as int]);
                }
                return Some(inputs[i].input);
            }
            proof {
                assert(inputs@.take(i as int + 1).drop_last() =~= inputs@.take(i as int));
                assert(inputs@.take(i as int + 1).last() == inputs@[i as int]);
            }
        }
        proof {
            assert(inputs@.take(0) =~= Seq::<PlayerInput>::empty());
        }
        None
    }
}

/// One full snapshot of the world: the registry plus the simulation
/// clock, in seconds, as an IEEE-754 single.
#[derive(PartialEq, Clone, Debug)]
pub struct Game {
    pub actors: Actors,
    pub time: Real32,
}

impl Game {
    /// The empty world at time zero.
    pub fn new() -> (r: Game)
        ensures
            r.actors@ == Seq::<(ActorId, Actor)>::empty(),
            r.actors.spec_count() == 0,
            r.time == (Real32 { bits: 0 }),
    {
        Game { actors: Actors::new(), time: Real32 { bits: 0 } }
    }

    /// Put a fresh ship for a new joiner mid-screen, camera at the
    /// origin, and hand its id back.
    pub fn add_ship(&mut self, spec: &GameSpec) -> (r: ActorId)
        requires
            old(self).actors.spec_count() < ActorId::MAX,
        ensures
            r == old(self).actors.spec_count(),
            final(self).actors@ == old(self).actors@.push(
                (r, Actor::Ship(starting_ship(spec.ship_spec))),
            ),
            final(self).actors.spec_count() == old(self).actors.spec_count() + 1,
            final(self).time == old(self).time,
    {
        let pos = Vec2 { x: Real32 { bits: SHIP_START_X }, y: Real32 { bits: SHIP_START_Y } };
        let camera_pos = Vec2::zero();
        self.actors.add(Actor::Ship(Ship::new(spec.ship_spec, pos, camera_pos)))
    }
}

/// A snapshot addressed to one player: which ship is "you".
#[derive(PartialEq, Clone, Debug)]
pub struct PlayerGame {
    pub player: ActorId,
    pub game: Game,
}

} // verus!
