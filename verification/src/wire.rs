//! How the game's values travel as bytes.
//!
//! Every type that crosses the wire gets a mathematical encoding
//! (`enc_*`), a mathematical decoding (`dec_*`), executable writers and
//! readers proved to follow them, and a lemma that decoding inverts
//! encoding.  Composites are field-by-field concatenations in
//! declaration order; enums open with a one-byte tag in declaration
//! order.

use vstd::prelude::*;

use crate::actors::{
    unique_keys, keys_below, Actor, ActorId, Actors, Bullet, Camera, Game, PlayerGame, Ship,
    Shooter,
};
use crate::codec::{
    dec_bool, dec_u32, dec_u8, dec_usize, enc_bool, enc_u32, enc_u64, enc_u8, lemma_concat_skip,
    lemma_dec_enc_bool, lemma_dec_enc_u32, lemma_dec_enc_u64, lemma_dec_enc_u8, lemma_skip_skip,
    DecoderReader, DecodingError, DecodingResult, EncoderWriter, InvalidBytes,
};
use crate::geom::{Real32, Transform, Vec2};
use crate::input::{Input, Rotating};

verus! {

// ---------------------------------------------------------------------
// Scalars.

/// A real number travels as the four bytes of its bit pattern.
pub open spec fn enc_real(v: Real32) -> Seq<u8> {
    enc_u32(v.bits)
}

pub open spec fn dec_real(s: Seq<u8>) -> Option<(Real32, int)> {
    match dec_u32(s) {
        Some((bits, n)) => Some((Real32 { bits }, n)),
        None => None,
    }
}

pub proof fn lemma_dec_enc_real(v: Real32, rest: Seq<u8>)
    ensures
        dec_real(enc_real(v) + rest) == Some((v, enc_real(v).len() as int)),
{
    lemma_dec_enc_u32(v.bits, rest);
}

// ---------------------------------------------------------------------
// Vectors and transforms.

pub open spec fn enc_vec2(v: Vec2) -> Seq<u8> {
    enc_real(v.x) + enc_real(v.y)
}

pub open spec fn dec_vec2(s: Seq<u8>) -> Option<(Vec2, int)> {
    match dec_real(s) {
        None => None,
        Some((x, n1)) => match dec_real(s.skip(n1)) {
            None => None,
            Some((y, n2)) => Some((Vec2 { x, y }, n1 + n2)),
        },
    }
}

pub proof fn lemma_dec_enc_vec2(v: Vec2, rest: Seq<u8>)
    ensures
        dec_vec2(enc_vec2(v) + rest) == Some((v, enc_vec2(v).len() as int)),
{
    let s = enc_vec2(v) + rest;
    assert(s =~= enc_real(v.x) + (enc_real(v.y) + rest));
    lemma_dec_enc_real(v.x, enc_real(v.y) + rest);
    lemma_concat_skip(enc_real(v.x), enc_real(v.y) + rest);
    lemma_dec_enc_real(v.y, rest);
}

pub open spec fn enc_transform(v: Transform) -> Seq<u8> {
    enc_vec2(v.pos) + enc_real(v.rotation)
}

pub open spec fn dec_transform(s: Seq<u8>) -> Option<(Transform, int)> {
    match dec_vec2(s) {
        None => None,
        Some((pos, n1)) => match dec_real(s.skip(n1)) {
            None => None,
            Some((rotation, n2)) => Some((Transform { pos, rotation }, n1 + n2)),
        },
    }
}

pub proof fn lemma_dec_enc_transform(v: Transform, rest: Seq<u8>)
    ensures
        dec_transform(enc_transform(v) + rest) == Some((v, enc_transform(v).len() as int)),
{
    let s = enc_transform(v) + rest;
    assert(s =~= enc_vec2(v.pos) + (enc_real(v.rotation) + rest));
    lemma_dec_enc_vec2(v.pos, enc_real(v.rotation) + rest);
    lemma_concat_skip(enc_vec2(v.pos), enc_real(v.rotation) + rest);
    lemma_dec_enc_real(v.rotation, rest);
}

// ---------------------------------------------------------------------
// Inputs.

pub open spec fn rotating_tag(v: Rotating) -> u8 {
    match v {
        Rotating::Still => 0,
        Rotating::Left => 1,
        Rotating::Right => 2,
    }
}

pub open spec fn enc_rotating(v: Rotating) -> Seq<u8> {
    enc_u8(rotating_tag(v))
}

pub open spec fn dec_rotating(s: Seq<u8>) -> Option<(Rotating, int)> {
    match dec_u8(s) {
        None => None,
        Some((tag, n)) => if tag == 0 {
            Some((Rotating::Still, n))
        } else if tag == 1 {
            Some((Rotating::Left, n))
        } else if tag == 2 {
            Some((Rotating::Right, n))
        } else {
            None
        },
    }
}

pub proof fn lemma_dec_enc_rotating(v: Rotating, rest: Seq<u8>)
    ensures
        dec_rotating(enc_rotating(v) + rest) == Some((v, enc_rotating(v).len() as int)),
{
    lemma_dec_enc_u8(rotating_tag(v), rest);
}

pub open spec fn enc_input(v: Input) -> Seq<u8> {
    enc_bool(v.quit) + enc_bool(v.accel) + enc_bool(v.firing) + enc_rotating(v.rotating)
        + enc_bool(v.paused)
}

pub open spec fn dec_input(s: Seq<u8>) -> Option<(Input, int)> {
    match dec_bool(s) {
        None => None,
        Some((quit, n1)) => match dec_bool(s.skip(n1)) {
            None => None,
            Some((accel, n2)) => match dec_bool(s.skip(n1 + n2)) {
                None => None,
                Some((firing, n3)) => match dec_rotating(s.skip(n1 + n2 + n3)) {
                    None => None,
                    Some((rotating, n4)) => match dec_bool(s.skip(n1 + n2 + n3 + n4)) {
                        None => None,
                        Some((paused, n5)) => Some(
                            (Input { quit, accel, firing, rotating, paused }, n1 + n2 + n3 + n4 + n5),
                        ),
                    },
                },
            },
        },
    }
}

#[verifier::rlimit(50)]
pub proof fn lemma_dec_enc_input(v: Input, rest: Seq<u8>)
    ensures
        dec_input(enc_input(v) + rest) == Some((v, enc_input(v).len() as int)),
{
    let s = enc_input(v) + rest;
    let r2 = enc_bool(v.accel) + (enc_bool(v.firing) + (enc_rotating(v.rotating) + (enc_bool(
        v.paused,
    ) + rest)));
    assert(s =~= enc_bool(v.quit) + r2);
    lemma_dec_enc_bool(v.quit, r2);
    lemma_concat_skip(enc_bool(v.quit), r2);
    let r3 = enc_bool(v.firing) + (enc_rotating(v.rotating) + (enc_bool(v.paused) + rest));
    lemma_dec_enc_bool(v.accel, r3);
    lemma_concat_skip(enc_bool(v.accel), r3);
    assert(s.skip(2int) =~= r3);
    let r4 = enc_rotating(v.rotating) + (enc_bool(v.paused) + rest);
    lemma_dec_enc_bool(v.firing, r4);
    lemma_concat_skip(enc_bool(v.firing), r4);
    assert(s.skip(3int) =~= r4);
    let r5 = enc_bool(v.paused) + rest;
    lemma_dec_enc_rotating(v.rotating, r5);
    lemma_concat_skip(enc_rotating(v.rotating), r5);
    assert(s.skip(4int) =~= r5);
    lemma_dec_enc_bool(v.paused, rest);
}

// ---------------------------------------------------------------------
// Executable writers and readers for the scalar block.

impl Real32 {
    pub fn encode(&self, w: &mut EncoderWriter)
        ensures
            final(w)@ == old(w)@ + enc_real(*self),
    {
        w.emit_u32(self.bits);
    }

    pub fn decode(r: &mut DecoderReader) -> (res: DecodingResult<Real32>)
        ensures
            match dec_real(old(r)@) {
                Some(d) => res == DecodingResult::<Real32>::Ok(d.0) && final(r)@ == old(r)@.skip(
                    d.1,
                ),
                None => res.is_err() && final(r)@ == old(r)@,
            },
    {
        match r.read_u32() {
            Ok(bits) => Ok(Real32 { bits }),
            Err(e) => Err(e),
        }
    }
}

impl Vec2 {
    pub fn encode(&self, w: &mut EncoderWriter)
        ensures
            final(w)@ == old(w)@ + enc_vec2(*self),
    {
        self.x.encode(w);
        self.y.encode(w);
        assert(w@ =~= old(w)@ + enc_vec2(*self));
    }

    pub fn decode(r: &mut DecoderReader) -> (res: DecodingResult<Vec2>)
        ensures
            match dec_vec2(old(r)@) {
                Some(d) => res == DecodingResult::<Vec2>::Ok(d.0) && final(r)@ == old(r)@.skip(
                    d.1,
                ),
                None => res.is_err(),
            },
    {
        let x = match Real32::decode(r) {
            Ok(v) => v,
            Err(e) => {
                return Err(e);
            },
        };
        let y = match Real32::decode(r) {
            Ok(v) => v,
            Err(e) => {
                return Err(e);
            },
        };
        proof {
            if dec_vec2(old(r)@) is Some {
                assert(old(r)@.skip(4).skip(4) =~= old(r)@.skip(8));
            }
        }
        Ok(Vec2 { x, y })
    }
}

impl Transform {
    pub fn encode(&self, w: &mut EncoderWriter)
        ensures
            final(w)@ == old(w)@ + enc_transform(*self),
    {
        self.pos.encode(w);
        self.rotation.encode(w);
        assert(w@ =~= old(w)@ + enc_transform(*self));
    }

    pub fn decode(r: &mut DecoderReader) -> (res: DecodingResult<Transform>)
        ensures
            match dec_transform(old(r)@) {
                Some(d) => res == DecodingResult::<Transform>::Ok(d.0) && final(r)@ == old(
                    r,
                )@.skip(d.1),
                None => res.is_err(),
            },
    {
        let pos = match Vec2::decode(r) {
            Ok(v) => v,
            Err(e) => {
                return Err(e);
            },
        };
        let rotation = match Real32::decode(r) {
            Ok(v) => v,
            Err(e) => {
                return Err(e);
            },
        };
        proof {
            if dec_transform(old(r)@) is Some {
                assert(old(r)@.skip(8).skip(4) =~= old(r)@.skip(12));
            }
        }
        Ok(Transform { pos, rotation })
    }
}

impl Rotating {
    pub fn encode(&self, w: &mut EncoderWriter)
        ensures
            final(w)@ == old(w)@ + enc_rotating(*self),
    {
        let tag: u8 = match self {
            Rotating::Still => 0,
            Rotating::Left => 1,
            Rotating::Right => 2,
        };
        w.emit_u8(tag);
    }

    pub fn decode(r: &mut DecoderReader) -> (res: DecodingResult<Rotating>)
        ensures
            match dec_rotating(old(r)@) {
                Some(d) => res == DecodingResult::<Rotating>::Ok(d.0) && final(r)@ == old(
                    r,
                )@.skip(d.1),
                None => res.is_err(),
            },
    {
        let tag = match r.read_u8() {
            Ok(v) => v,
            Err(e) => {
                return Err(e);
            },
        };
        if tag == 0 {
            Ok(Rotating::Still)
        } else if tag == 1 {
            Ok(Rotating::Left)
        } else if tag == 2 {
            Ok(Rotating::Right)
        } else {
            Err(
                DecodingError::InvalidBytes(
                    InvalidBytes { desc: "out of bounds tag when reading enum variant" },
                ),
            )
        }
    }
}

impl Input {
    pub fn encode(&self, w: &mut EncoderWriter)
        ensures
            final(w)@ == old(w)@ + enc_input(*self),
    {
        w.emit_bool(self.quit);
        w.emit_bool(self.accel);
        w.emit_bool(self.firing);
        self.rotating.encode(w);
        w.emit_bool(self.paused);
        assert(w@ =~= old(w)@ + enc_input(*self));
    }

    pub fn decode(r: &mut DecoderReader) -> (res: DecodingResult<Input>)
        ensures
            match dec_input(old(r)@) {
                Some(d) => res == DecodingResult::<Input>::Ok(d.0) && final(r)@ == old(r)@.skip(
                    d.1,
                ),
                None => res.is_err(),
            },
    {
        let quit = match r.read_bool() {
            Ok(v) => v,
            Err(e) => {
                return Err(e);
            },
        };
        let accel = match r.read_bool() {
            Ok(v) => v,
            Err(e) => {
                return Err(e);
            },
        };
        let firing = match r.read_bool() {
            Ok(v) => v,
            Err(e) => {
                return Err(e);
            },
        };
        let rotating = match Rotating::decode(r) {
            Ok(v) => v,
            Err(e) => {
                return Err(e);
            },
        };
        let paused = match r.read_bool() {
            Ok(v) => v,
            Err(e) => {
                return Err(e);
            },
        };
        proof {
            if dec_input(old(r)@) is Some {
                assert(old(r)@.skip(1).skip(1) =~= old(r)@.skip(2));
                assert(old(r)@.skip(2).skip(1) =~= old(r)@.skip(3));
                assert(old(r)@.skip(3).skip(1) =~= old(r)@.skip(4));
                assert(old(r)@.skip(4).skip(1) =~= old(r)@.skip(5));
            }
        }
        Ok(Input { quit, accel, firing, rotating, paused })
    }
}

// ---------------------------------------------------------------------
// Actors on the wire: mathematical encodings.

pub open spec fn enc_camera(v: Camera) -> Seq<u8> {
    enc_vec2(v.pos) + enc_vec2(v.vel)
}

pub open spec fn dec_camera(s: Seq<u8>) -> Option<(Camera, int)> {
    match dec_vec2(s) {
        None => None,
        Some((pos, n1)) => match dec_vec2(s.skip(n1)) {
            None => None,
            Some((vel, n2)) => Some((Camera { pos, vel }, n1 + n2)),
        },
    }
}

pub proof fn lemma_dec_enc_camera(v: Camera, rest: Seq<u8>)
    ensures
        dec_camera(enc_camera(v) + rest) == Some((v, enc_camera(v).len() as int)),
{
    let s = enc_camera(v) + rest;
    assert(s =~= enc_vec2(v.pos) + (enc_vec2(v.vel) + rest));
    lemma_dec_enc_vec2(v.pos, enc_vec2(v.vel) + rest);
    lemma_concat_skip(enc_vec2(v.pos), enc_vec2(v.vel) + rest);
    lemma_dec_enc_vec2(v.vel, rest);
}

pub open spec fn enc_bullet(v: Bullet) -> Seq<u8> {
    enc_u32(v.spec) + enc_transform(v.trans) + enc_real(v.age)
}

pub open spec fn dec_bullet(s: Seq<u8>) -> Option<(Bullet, int)> {
    match dec_u32(s) {
        None => None,
        Some((spec, n1)) => match dec_transform(s.skip(n1)) {
            None => None,
            Some((trans, n2)) => match dec_real(s.skip(n1 + n2)) {
                None => None,
                Some((age, n3)) => Some((Bullet { spec, trans, age }, n1 + n2 + n3)),
            },
        },
    }
}

pub proof fn lemma_dec_enc_bullet(v: Bullet, rest: Seq<u8>)
    ensures
        dec_bullet(enc_bullet(v) + rest) == Some((v, enc_bullet(v).len() as int)),
{
    let s = enc_bullet(v) + rest;
    let r1 = enc_transform(v.trans) + (enc_real(v.age) + rest);
    assert(s =~= enc_u32(v.spec) + r1);
    lemma_dec_enc_u32(v.spec, r1);
    lemma_concat_skip(enc_u32(v.spec), r1);
    let r2 = enc_real(v.age) + rest;
    lemma_dec_enc_transform(v.trans, r2);
    lemma_concat_skip(enc_transform(v.trans), r2);
    assert(s.skip(16int) =~= r2);
    lemma_dec_enc_real(v.age, rest);
}

pub open spec fn enc_shooter(v: Shooter) -> Seq<u8> {
    enc_u32(v.spec) + enc_real(v.time_since_fire)
}

pub open spec fn dec_shooter(s: Seq<u8>) -> Option<(Shooter, int)> {
    match dec_u32(s) {
        None => None,
        Some((spec, n1)) => match dec_real(s.skip(n1)) {
            None => None,
            Some((time_since_fire, n2)) => Some((Shooter { spec, time_since_fire }, n1 + n2)),
        },
    }
}

pub proof fn lemma_dec_enc_shooter(v: Shooter, rest: Seq<u8>)
    ensures
        dec_shooter(enc_shooter(v) + rest) == Some((v, enc_shooter(v).len() as int)),
{
    let s = enc_shooter(v) + rest;
    assert(s =~= enc_u32(v.spec) + (enc_real(v.time_since_fire) + rest));
    lemma_dec_enc_u32(v.spec, enc_real(v.time_since_fire) + rest);
    lemma_concat_skip(enc_u32(v.spec), enc_real(v.time_since_fire) + rest);
    lemma_dec_enc_real(v.time_since_fire, rest);
}

pub open spec fn enc_ship(v: Ship) -> Seq<u8> {
    enc_u32(v.spec) + enc_transform(v.trans) + enc_vec2(v.vel) + enc_real(v.not_firing_for)
        + enc_bool(v.accel) + enc_rotating(v.rotating) + enc_camera(v.camera)
}

pub open spec fn dec_ship(s: Seq<u8>) -> Option<(Ship, int)> {
    match dec_u32(s) {
        None => None,
        Some((spec, n1)) => match dec_transform(s.skip(n1)) {
            None => None,
            Some((trans, n2)) => match dec_vec2(s.skip(n1 + n2)) {
                None => None,
                Some((vel, n3)) => match dec_real(s.skip(n1 + n2 + n3)) {
                    None => None,
                    Some((not_firing_for, n4)) => match dec_bool(s.skip(n1 + n2 + n3 + n4)) {
                        None => None,
                        Some((accel, n5)) => match dec_rotating(s.skip(n1 + n2 + n3 + n4 + n5)) {
                            None => None,
                            Some((rotating, n6)) => match dec_camera(
                                s.skip(n1 + n2 + n3 + n4 + n5 + n6),
                            ) {
                                None => None,
                                Some((camera, n7)) => Some(
                                    (
                                        Ship {
                                            spec,
                                            trans,
                                            vel,
                                            not_firing_for,
                                            accel,
                                            rotating,
                                            camera,
                                        },
                                        n1 + n2 + n3 + n4 + n5 + n6 + n7,
                                    ),
                                ),
                            },
                        },
                    },
                },
            },
        },
    }
}

#[verifier::rlimit(100)]
pub proof fn lemma_dec_enc_ship(v: Ship, rest: Seq<u8>)
    ensures
        dec_ship(enc_ship(v) + rest) == Some((v, enc_ship(v).len() as int)),
{
    let s = enc_ship(v) + rest;
    let r1 = enc_transform(v.trans) + (enc_vec2(v.vel) + (enc_real(v.not_firing_for) + (enc_bool(
        v.accel,
    ) + (enc_rotating(v.rotating) + (enc_camera(v.camera) + rest)))));
    assert(s =~= enc_u32(v.spec) + r1);
    lemma_dec_enc_u32(v.spec, r1);
    lemma_concat_skip(enc_u32(v.spec), r1);
    let r2 = enc_vec2(v.vel) + (enc_real(v.not_firing_for) + (enc_bool(v.accel) + (enc_rotating(
        v.rotating,
    ) + (enc_camera(v.camera) + rest))));
    lemma_dec_enc_transform(v.trans, r2);
    lemma_concat_skip(enc_transform(v.trans), r2);
    assert(s.skip(16int) =~= r2);
    let r3 = enc_real(v.not_firing_for) + (enc_bool(v.accel) + (enc_rotating(v.rotating)
        + (enc_camera(v.camera) + rest)));
    lemma_dec_enc_vec2(v.vel, r3);
    lemma_concat_skip(enc_vec2(v.vel), r3);
    assert(s.skip(24int) =~= r3);
    let r4 = enc_bool(v.accel) + (enc_rotating(v.rotating) + (enc_camera(v.camera) + rest));
    lemma_dec_enc_real(v.not_firing_for, r4);
    lemma_concat_skip(enc_real(v.not_firing_for), r4);
    assert(s.skip(28int) =~= r4);
    let r5 = enc_rotating(v.rotating) + (enc_camera(v.camera) + rest);
    lemma_dec_enc_bool(v.accel, r5);
    lemma_concat_skip(enc_bool(v.accel), r5);
    assert(s.skip(29int) =~= r5);
    let r6 = enc_camera(v.camera) + rest;
    lemma_dec_enc_rotating(v.rotating, r6);
    lemma_concat_skip(enc_rotating(v.rotating), r6);
    assert(s.skip(30int) =~= r6);
    lemma_dec_enc_camera(v.camera, rest);
}

/// Variant tags follow declaration order.
pub open spec fn actor_tag(v: Actor) -> u8 {
    match v {
        Actor::Ship(_) => 0,
        Actor::Shooter(_) => 1,
        Actor::Bullet(_) => 2,
    }
}

pub open spec fn enc_actor(v: Actor) -> Seq<u8> {
    match v {
        Actor::Ship(ship) => enc_u8(0) + enc_ship(ship),
        Actor::Shooter(shooter) => enc_u8(1) + enc_shooter(shooter),
        Actor::Bullet(bullet) => enc_u8(2) + enc_bullet(bullet),
    }
}

pub open spec fn dec_actor(s: Seq<u8>) -> Option<(Actor, int)> {
    match dec_u8(s) {
        None => None,
        Some((tag, n1)) => if tag == 0 {
            match dec_ship(s.skip(n1)) {
                None => None,
                Some((ship, n2)) => Some((Actor::Ship(ship), n1 + n2)),
            }
        } else if tag == 1 {
            match dec_shooter(s.skip(n1)) {
                None => None,
                Some((shooter, n2)) => Some((Actor::Shooter(shooter), n1 + n2)),
            }
        } else if tag == 2 {
            match dec_bullet(s.skip(n1)) {
                None => None,
                Some((bullet, n2)) => Some((Actor::Bullet(bullet), n1 + n2)),
            }
        } else {
            None
        },
    }
}

#[verifier::rlimit(100)]
#[verifier::spinoff_prover]
proof fn lemma_dec_enc_actor_ship(ship: Ship, rest: Seq<u8>)
    ensures
        dec_actor(enc_actor(Actor::Ship(ship)) + rest) == Some(
            (Actor::Ship(ship), enc_actor(Actor::Ship(ship)).len() as int),
        ),
{
    let s = enc_actor(Actor::Ship(ship)) + rest;
    assert(s =~= enc_u8(0) + (enc_ship(ship) + rest));
    lemma_dec_enc_u8(0, enc_ship(ship) + rest);
    lemma_concat_skip(enc_u8(0), enc_ship(ship) + rest);
    lemma_dec_enc_ship(ship, rest);
}

#[verifier::rlimit(100)]
#[verifier::spinoff_prover]
proof fn lemma_dec_enc_actor_shooter(shooter: Shooter, rest: Seq<u8>)
    ensures
        dec_actor(enc_actor(Actor::Shooter(shooter)) + rest) == Some(
            (Actor::Shooter(shooter), enc_actor(Actor::Shooter(shooter)).len() as int),
        ),
{
    let s = enc_actor(Actor::Shooter(shooter)) + rest;
    assert(s =~= enc_u8(1) + (enc_shooter(shooter) + rest));
    lemma_dec_enc_u8(1, enc_shooter(shooter) + rest);
    lemma_concat_skip(enc_u8(1), enc_shooter(shooter) + rest);
    lemma_dec_enc_shooter(shooter, rest);
}

#[verifier::rlimit(100)]
#[verifier::spinoff_prover]
proof fn lemma_dec_enc_actor_bullet(bullet: Bullet, rest: Seq<u8>)
    ensures
        dec_actor(enc_actor(Actor::Bullet(bullet)) + rest) == Some(
            (Actor::Bullet(bullet), enc_actor(Actor::Bullet(bullet)).len() as int),
        ),
{
    let s = enc_actor(Actor::Bullet(bullet)) + rest;
    assert(s =~= enc_u8(2) + (enc_bullet(bullet) + rest));
    lemma_dec_enc_u8(2, enc_bullet(bullet) + rest);
    lemma_concat_skip(enc_u8(2), enc_bullet(bullet) + rest);
    lemma_dec_enc_bullet(bullet, rest);
}

pub proof fn lemma_dec_enc_actor(v: Actor, rest: Seq<u8>)
    ensures
        dec_actor(enc_actor(v) + rest) == Some((v, enc_actor(v).len() as int)),
{
    match v {
        Actor::Ship(ship) => lemma_dec_enc_actor_ship(ship, rest),
        Actor::Shooter(shooter) => lemma_dec_enc_actor_shooter(shooter, rest),
        Actor::Bullet(bullet) => lemma_dec_enc_actor_bullet(bullet, rest),
    }
}

// ---------------------------------------------------------------------
// The registry on the wire: a length, the id/actor pairs in order, and
// the counter.

pub open spec fn enc_pair(p: (ActorId, Actor)) -> Seq<u8> {
    enc_u32(p.0) + enc_actor(p.1)
}

pub open spec fn enc_pairs(s: Seq<(ActorId, Actor)>) -> Seq<u8>
    decreases s.len(),
{
    if s.len() == 0 {
        Seq::empty()
    } else {
        enc_pair(s.first()) + enc_pairs(s.drop_first())
    }
}

pub open spec fn dec_pairs(s: Seq<u8>, n: nat) -> Option<(Seq<(ActorId, Actor)>, int)>
    decreases n,
{
    if n == 0 {
        Some((Seq::empty(), 0int))
    } else {
        match dec_u32(s) {
            None => None,
            Some((id, n1)) => match dec_actor(s.skip(n1)) {
                None => None,
                Some((actor, n2)) => match dec_pairs(s.skip(n1 + n2), (n - 1) as nat) {
                    None => None,
                    Some((tail, n3)) => Some(
                        (seq![(id, actor)] + tail, n1 + n2 + n3),
                    ),
                },
            },
        }
    }
}

/// Appending a pair extends the pair encoding at its back.
pub proof fn lemma_enc_pairs_push(s: Seq<(ActorId, Actor)>, p: (ActorId, Actor))
    ensures
        enc_pairs(s.push(p)) == enc_pairs(s) + enc_pair(p),
    decreases s.len(),
{
    if s.len() == 0 {
        assert(s.push(p).first() == p);
        assert(s.push(p).drop_first() =~= s);
        assert(enc_pairs(s.push(p)) =~= enc_pairs(s) + enc_pair(p));
    } else {
        assert(s.push(p).first() == s.first());
        assert(s.push(p).drop_first() =~= s.drop_first().push(p));
        lemma_enc_pairs_push(s.drop_first(), p);
        assert(enc_pairs(s.push(p)) == enc_pair(s.first()) + (enc_pairs(s.drop_first()) + enc_pair(
            p,
        )));
        assert(enc_pair(s.first()) + (enc_pairs(s.drop_first()) + enc_pair(p)) =~= (enc_pair(
            s.first(),
        ) + enc_pairs(s.drop_first())) + enc_pair(p));
    }
}

/// What a successful pair decode consumes and produces: `n` pairs, and
/// no more bytes than there are.
pub proof fn lemma_dec_pairs_bounds(s: Seq<u8>, n: nat)
    ensures
        match dec_pairs(s, n) {
            Some(d) => d.0.len() == n && 0 <= d.1 <= s.len(),
            None => true,
        },
    decreases n,
{
    if n != 0 {
        match dec_u32(s) {
            None => {},
            Some((id, n1)) => match dec_actor(s.skip(n1)) {
                None => {},
                Some((actor, n2)) => {
                    lemma_dec_actor_bounds(s.skip(n1));
                    lemma_dec_pairs_bounds(s.skip(n1 + n2), (n - 1) as nat);
                },
            },
        }
    }
}

/// A successful actor decode consumes at least the tag and at most the
/// whole input.
pub proof fn lemma_dec_actor_bounds(s: Seq<u8>)
    ensures
        match dec_actor(s) {
            Some(d) => 1 <= d.1 <= s.len(),
            None => true,
        },
{
}

#[verifier::rlimit(100)]
pub proof fn lemma_dec_enc_pairs(s: Seq<(ActorId, Actor)>, rest: Seq<u8>)
    ensures
        dec_pairs(enc_pairs(s) + rest, s.len()) == Some((s, enc_pairs(s).len() as int)),
    decreases s.len(),
{
    if s.len() == 0 {
        assert(enc_pairs(s) + rest =~= rest);
        assert(Seq::<(ActorId, Actor)>::empty() =~= s);
    } else {
        let p = s.first();
        let b = enc_pairs(s) + rest;
        let r1 = enc_actor(p.1) + (enc_pairs(s.drop_first()) + rest);
        assert(b =~= enc_u32(p.0) + r1);
        lemma_dec_enc_u32(p.0, r1);
        lemma_concat_skip(enc_u32(p.0), r1);
        let r2 = enc_pairs(s.drop_first()) + rest;
        lemma_dec_enc_actor(p.1, r2);
        lemma_concat_skip(enc_actor(p.1), r2);
        assert(b.skip(4 + enc_actor(p.1).len() as int) =~= r2);
        lemma_dec_enc_pairs(s.drop_first(), rest);
        assert(seq![p] + s.drop_first() =~= s);
    }
}

pub open spec fn enc_actors(pairs: Seq<(ActorId, Actor)>, count: ActorId) -> Seq<u8> {
    enc_u64(pairs.len() as u64) + enc_pairs(pairs) + enc_u32(count)
}

/// A registry decodes only when its pairs are well-formed for its
/// counter: ids unique and below the counter.
pub open spec fn dec_actors(s: Seq<u8>) -> Option<((Seq<(ActorId, Actor)>, ActorId), int)> {
    match dec_usize(s) {
        None => None,
        Some((len, n1)) => match dec_pairs(s.skip(n1), len as nat) {
            None => None,
            Some((pairs, n2)) => match dec_u32(s.skip(n1 + n2)) {
                None => None,
                Some((count, n3)) => if unique_keys(pairs) && keys_below(pairs, count) {
                    Some(((pairs, count), n1 + n2 + n3))
                } else {
                    None
                },
            },
        },
    }
}

#[verifier::rlimit(50)]
pub proof fn lemma_dec_enc_actors(
    pairs: Seq<(ActorId, Actor)>,
    count: ActorId,
    rest: Seq<u8>,
)
    requires
        unique_keys(pairs),
        keys_below(pairs, count),
        pairs.len() <= usize::MAX,
    ensures
        dec_actors(enc_actors(pairs, count) + rest) == Some(
            ((pairs, count), enc_actors(pairs, count).len() as int),
        ),
{
    let s = enc_actors(pairs, count) + rest;
    let len64 = pairs.len() as u64;
    let r1 = enc_pairs(pairs) + (enc_u32(count) + rest);
    assert(s =~= enc_u64(len64) + r1);
    lemma_dec_enc_u64(len64, r1);
    assert(len64 <= usize::MAX as u64);
    assert(len64 as usize as nat == pairs.len());
    lemma_concat_skip(enc_u64(len64), r1);
    let r2 = enc_u32(count) + rest;
    lemma_dec_enc_pairs(pairs, r2);
    lemma_concat_skip(enc_pairs(pairs), r2);
    assert(s.skip(8 + enc_pairs(pairs).len() as int) =~= r2);
    lemma_dec_enc_u32(count, rest);
}

// ---------------------------------------------------------------------
// Snapshots on the wire.

pub open spec fn enc_game(pairs: Seq<(ActorId, Actor)>, count: ActorId, time: Real32) -> Seq<u8> {
    enc_actors(pairs, count) + enc_real(time)
}

pub open spec fn dec_game(s: Seq<u8>) -> Option<((Seq<(ActorId, Actor)>, ActorId, Real32), int)> {
    match dec_actors(s) {
        None => None,
        Some(((pairs, count), n1)) => match dec_real(s.skip(n1)) {
            None => None,
            Some((time, n2)) => Some(((pairs, count, time), n1 + n2)),
        },
    }
}

pub proof fn lemma_dec_enc_game(
    pairs: Seq<(ActorId, Actor)>,
    count: ActorId,
    time: Real32,
    rest: Seq<u8>,
)
    requires
        unique_keys(pairs),
        keys_below(pairs, count),
        pairs.len() <= usize::MAX,
    ensures
        dec_game(enc_game(pairs, count, time) + rest) == Some(
            ((pairs, count, time), enc_game(pairs, count, time).len() as int),
        ),
{
    let s = enc_game(pairs, count, time) + rest;
    let r1 = enc_real(time) + rest;
    assert(s =~= enc_actors(pairs, count) + r1);
    lemma_dec_enc_actors(pairs, count, r1);
    lemma_concat_skip(enc_actors(pairs, count), r1);
    lemma_dec_enc_real(time, rest);
}

pub open spec fn enc_player_game(
    player: ActorId,
    pairs: Seq<(ActorId, Actor)>,
    count: ActorId,
    time: Real32,
) -> Seq<u8> {
    enc_u32(player) + enc_game(pairs, count, time)
}

pub open spec fn dec_player_game(s: Seq<u8>) -> Option<
    ((ActorId, Seq<(ActorId, Actor)>, ActorId, Real32), int),
> {
    match dec_u32(s) {
        None => None,
        Some((player, n1)) => match dec_game(s.skip(n1)) {
            None => None,
            Some(((pairs, count, time), n2)) => Some(((player, pairs, count, time), n1 + n2)),
        },
    }
}

#[verifier::rlimit(100)]
#[verifier::spinoff_prover]
pub proof fn lemma_dec_enc_player_game(
    player: ActorId,
    pairs: Seq<(ActorId, Actor)>,
    count: ActorId,
    time: Real32,
    rest: Seq<u8>,
)
    requires
        unique_keys(pairs),
        keys_below(pairs, count),
        pairs.len() <= usize::MAX,
    ensures
        dec_player_game(enc_player_game(player, pairs, count, time) + rest) == Some(
            (
                (player, pairs, count, time),
                enc_player_game(player, pairs, count, time).len() as int,
            ),
        ),
{
    let s = enc_player_game(player, pairs, count, time) + rest;
    let r1 = enc_game(pairs, count, time) + rest;
    assert(s =~= enc_u32(player) + r1);
    lemma_dec_enc_u32(player, r1);
    lemma_concat_skip(enc_u32(player), r1);
    lemma_dec_enc_game(pairs, count, time, rest);
}

// ---------------------------------------------------------------------
// The round trip, stated on its own: decoding what was encoded gives
// the value back, for every in-scope value.

/// Decoding an encoded input yields that input, nothing left over.
pub proof fn lemma_input_round_trip(v: Input)
    ensures
        dec_input(enc_input(v)) == Some((v, enc_input(v).len() as int)),
{
    lemma_dec_enc_input(v, Seq::empty());
    assert(enc_input(v) + Seq::<u8>::empty() =~= enc_input(v));
}

/// Decoding an encoded player snapshot yields that snapshot, for every
/// well-formed registry that fits in memory.
pub proof fn lemma_player_game_round_trip(
    player: ActorId,
    pairs: Seq<(ActorId, Actor)>,
    count: ActorId,
    time: Real32,
)
    requires
        unique_keys(pairs),
        keys_below(pairs, count),
        pairs.len() <= usize::MAX,
    ensures
        dec_player_game(enc_player_game(player, pairs, count, time)) == Some(
            (
                (player, pairs, count, time),
                enc_player_game(player, pairs, count, time).len() as int,
            ),
        ),
{
    lemma_dec_enc_player_game(player, pairs, count, time, Seq::empty());
    assert(enc_player_game(player, pairs, count, time) + Seq::<u8>::empty() =~= enc_player_game(
        player,
        pairs,
        count,
        time,
    ));
}

// ---------------------------------------------------------------------
// Executable writers and readers for actors and snapshots.

impl Camera {
    pub fn encode(&self, w: &mut EncoderWriter)
        ensures
            final(w)@ == old(w)@ + enc_camera(*self),
    {
        self.pos.encode(w);
        self.vel.encode(w);
        assert(w@ =~= old(w)@ + enc_camera(*self));
    }

    pub fn decode(r: &mut DecoderReader) -> (res: DecodingResult<Camera>)
        ensures
            match dec_camera(old(r)@) {
                Some(d) => res == DecodingResult::<Camera>::Ok(d.0) && final(r)@ == old(
                    r,
                )@.skip(d.1),
                None => res.is_err(),
            },
    {
        let pos = match Vec2::decode(r) {
            Ok(v) => v,
            Err(e) => {
                return Err(e);
            },
        };
        let vel = match Vec2::decode(r) {
            Ok(v) => v,
            Err(e) => {
                return Err(e);
            },
        };
        proof {
            if dec_camera(old(r)@) is Some {
                assert(old(r)@.skip(8).skip(8) =~= old(r)@.skip(16));
            }
        }
        Ok(Camera { pos, vel })
    }
}

impl Bullet {
    pub fn encode(&self, w: &mut EncoderWriter)
        ensures
            final(w)@ == old(w)@ + enc_bullet(*self),
    {
        w.emit_u32(self.spec);
        self.trans.encode(w);
        self.age.encode(w);
        assert(w@ =~= old(w)@ + enc_bullet(*self));
    }

    pub fn decode(r: &mut DecoderReader) -> (res: DecodingResult<Bullet>)
        ensures
            match dec_bullet(old(r)@) {
                Some(d) => res == DecodingResult::<Bullet>::Ok(d.0) && final(r)@ == old(
                    r,
                )@.skip(d.1),
                None => res.is_err(),
            },
    {
        let spec = match r.read_u32() {
            Ok(v) => v,
            Err(e) => {
                return Err(e);
            },
        };
        let trans = match Transform::decode(r) {
            Ok(v) => v,
            Err(e) => {
                return Err(e);
            },
        };
        let age = match Real32::decode(r) {
            Ok(v) => v,
            Err(e) => {
                return Err(e);
            },
        };
        proof {
            if dec_bullet(old(r)@) is Some {
                assert(old(r)@.skip(4).skip(12) =~= old(r)@.skip(16));
                assert(old(r)@.skip(16).skip(4) =~= old(r)@.skip(20));
            }
        }
        Ok(Bullet { spec, trans, age })
    }
}

impl Shooter {
    pub fn encode(&self, w: &mut EncoderWriter)
        ensures
            final(w)@ == old(w)@ + enc_shooter(*self),
    {
        w.emit_u32(self.spec);
        self.time_since_fire.encode(w);
        assert(w@ =~= old(w)@ + enc_shooter(*self));
    }

    pub fn decode(r: &mut DecoderReader) -> (res: DecodingResult<Shooter>)
        ensures
            match dec_shooter(old(r)@) {
                Some(d) => res == DecodingResult::<Shooter>::Ok(d.0) && final(r)@ == old(
                    r,
                )@.skip(d.1),
                None => res.is_err(),
            },
    {
        let spec = match r.read_u32() {
            Ok(v) => v,
            Err(e) => {
                return Err(e);
            },
        };
        let time_since_fire = match Real32::decode(r) {
            Ok(v) => v,
            Err(e) => {
                return Err(e);
            },
        };
        proof {
            if dec_shooter(old(r)@) is Some {
                assert(old(r)@.skip(4).skip(4) =~= old(r)@.skip(8));
            }
        }
        Ok(Shooter { spec, time_since_fire })
    }
}

impl Ship {
    #[verifier::rlimit(50)]
    pub fn encode(&self, w: &mut EncoderWriter)
        ensures
            final(w)@ == old(w)@ + enc_ship(*self),
    {
        w.emit_u32(self.spec);
        self.trans.encode(w);
        self.vel.encode(w);
        self.not_firing_for.encode(w);
        w.emit_bool(self.accel);
        self.rotating.encode(w);
        self.camera.encode(w);
        assert(w@ =~= old(w)@ + enc_ship(*self));
    }

    #[verifier::rlimit(50)]
    pub fn decode(r: &mut DecoderReader) -> (res: DecodingResult<Ship>)
        ensures
            match dec_ship(old(r)@) {
                Some(d) => res == DecodingResult::<Ship>::Ok(d.0) && final(r)@ == old(r)@.skip(
                    d.1,
                ),
                None => res.is_err(),
            },
    {
        let spec = match r.read_u32() {
            Ok(v) => v,
            Err(e) => {
                return Err(e);
            },
        };
        let trans = match Transform::decode(r) {
            Ok(v) => v,
            Err(e) => {
                return Err(e);
            },
        };
        let vel = match Vec2::decode(r) {
            Ok(v) => v,
            Err(e) => {
                return Err(e);
            },
        };
        let not_firing_for = match Real32::decode(r) {
            Ok(v) => v,
            Err(e) => {
                return Err(e);
            },
        };
        let accel = match r.read_bool() {
            Ok(v) => v,
            Err(e) => {
                return Err(e);
            },
        };
        let rotating = match Rotating::decode(r) {
            Ok(v) => v,
            Err(e) => {
                return Err(e);
            },
        };
        let camera = match Camera::decode(r) {
            Ok(v) => v,
            Err(e) => {
                return Err(e);
            },
        };
        proof {
            if dec_ship(old(r)@) is Some {
                assert(old(r)@.skip(4).skip(12) =~= old(r)@.skip(16));
                assert(old(r)@.skip(16).skip(8) =~= old(r)@.skip(24));
                assert(old(r)@.skip(24).skip(4) =~= old(r)@.skip(28));
                assert(old(r)@.skip(28).skip(1) =~= old(r)@.skip(29));
                assert(old(r)@.skip(29).skip(1) =~= old(r)@.skip(30));
                assert(old(r)@.skip(30).skip(16) =~= old(r)@.skip(46));
            }
        }
        Ok(Ship { spec, trans, vel, not_firing_for, accel, rotating, camera })
    }
}

impl Actor {
    pub fn encode(&self, w: &mut EncoderWriter)
        ensures
            final(w)@ == old(w)@ + enc_actor(*self),
    {
        match self {
            Actor::Ship(ship) => {
                w.emit_u8(0);
                ship.encode(w);
            },
            Actor::Shooter(shooter) => {
                w.emit_u8(1);
                shooter.encode(w);
            },
            Actor::Bullet(bullet) => {
                w.emit_u8(2);
                bullet.encode(w);
            },
        }
        assert(w@ =~= old(w)@ + enc_actor(*self));
    }

    pub fn decode(r: &mut DecoderReader) -> (res: DecodingResult<Actor>)
        ensures
            match dec_actor(old(r)@) {
                Some(d) => res == DecodingResult::<Actor>::Ok(d.0) && final(r)@ == old(r)@.skip(
                    d.1,
                ),
                None => res.is_err(),
            },
    {
        let tag = match r.read_u8() {
            Ok(v) => v,
            Err(e) => {
                return Err(e);
            },
        };
        if tag == 0 {
            match Ship::decode(r) {
                Ok(ship) => {
                    proof {
                        if dec_actor(old(r)@) is Some {
                            lemma_skip_skip(
                                old(r)@,
                                1int,
                                (dec_ship(old(r)@.skip(1))->0).1,
                            );
                        }
                    }
                    Ok(Actor::Ship(ship))
                },
                Err(e) => Err(e),
            }
        } else if tag == 1 {
            match Shooter::decode(r) {
                Ok(shooter) => {
                    proof {
                        if dec_actor(old(r)@) is Some {
                            lemma_skip_skip(
                                old(r)@,
                                1int,
                                (dec_shooter(old(r)@.skip(1))->0).1,
                            );
                        }
                    }
                    Ok(Actor::Shooter(shooter))
                },
                Err(e) => Err(e),
            }
        } else if tag == 2 {
            match Bullet::decode(r) {
                Ok(bullet) => {
                    proof {
                        if dec_actor(old(r)@) is Some {
                            lemma_skip_skip(
                                old(r)@,
                                1int,
                                (dec_bullet(old(r)@.skip(1))->0).1,
                            );
                        }
                    }
                    Ok(Actor::Bullet(bullet))
                },
                Err(e) => Err(e),
            }
        } else {
            Err(
                DecodingError::InvalidBytes(
                    InvalidBytes { desc: "out of bounds tag when reading enum variant" },
                ),
            )
        }
    }
}

// ---------------------------------------------------------------------
// The registry, snapshots, and whole datagram bodies.

impl Actors {
    #[verifier::rlimit(50)]
    pub fn encode(&self, w: &mut EncoderWriter)
        ensures
            final(w)@ == old(w)@ + enc_actors(self@, self.spec_count()),
    {
        let n = self.len();
        w.emit_usize(n);
        let mut i: usize = 0;
        proof {
            assert(self@.take(0) =~= Seq::<(ActorId, Actor)>::empty());
            assert(w@ =~= old(w)@ + enc_u64(n as u64) + enc_pairs(self@.take(0)));
        }
        while i < n
            invariant
                n == self@.len(),
                i <= n,
                w@ == old(w)@ + enc_u64(n as u64) + enc_pairs(self@.take(i as int)),
            decreases n - i,
        {
            let p = *self.pair_at(i);
            w.emit_u32(p.0);
            p.1.encode(w);
            proof {
                lemma_enc_pairs_push(self@.take(i as int), self@[i as int]);
                assert(self@.take(i as int).push(self@[i as int]) =~= self@.take(i as int + 1));
                assert(w@ =~= old(w)@ + enc_u64(n as u64) + enc_pairs(self@.take(i as int + 1)));
            }
            i = i + 1;
        }
        w.emit_u32(self.count());
        proof {
            assert(self@.take(n as int) =~= self@);
            assert(w@ =~= old(w)@ + enc_actors(self@, self.spec_count()));
        }
    }

    #[verifier::rlimit(100)]
    #[verifier::loop_isolation(false)]
    pub fn decode(r: &mut DecoderReader) -> (res: DecodingResult<Actors>)
        ensures
            match dec_actors(old(r)@) {
                Some(d) => (res matches Ok(a) && a@ == (d.0).0 && a.spec_count() == (d.0).1
                    && final(r)@ == old(r)@.skip(d.1)),
                None => res.is_err(),
            },
    {
        let len = match r.read_usize() {
            Ok(v) => v,
            Err(e) => {
                return Err(e);
            },
        };
        let ghost s1 = r@;
        let mut pairs: Vec<(ActorId, Actor)> = Vec::new();
        let mut i: usize = 0;
        while i < len
            invariant
                i <= len,
                pairs@.len() == i,
                r@.len() <= s1.len(),
                r@ == s1.skip(s1.len() - r@.len()),
                dec_pairs(s1, len as nat) == (match dec_pairs(r@, (len - i) as nat) {
                    Some(d) => Some((pairs@ + d.0, s1.len() - r@.len() + d.1)),
                    None => None::<(Seq<(ActorId, Actor)>, int)>,
                }),
            decreases len - i,
        {
            let ghost r_pre = r@;
            let id = match r.read_u32() {
                Ok(v) => v,
                Err(e) => {
                    return Err(e);
                },
            };
            let actor = match Actor::decode(r) {
                Ok(v) => v,
                Err(e) => {
                    return Err(e);
                },
            };
            proof {
                let m = (dec_actor(r_pre.skip(4)) -> 0).1;
                lemma_dec_actor_bounds(r_pre.skip(4));
                lemma_skip_skip(r_pre, 4int, m);
                let c_pre = s1.len() - r_pre.len();
                lemma_skip_skip(s1, c_pre as int, 4 + m);
                let ghost tail_dec = dec_pairs(r@, (len - i - 1) as nat);
                if tail_dec is Some {
                    let d = tail_dec -> 0;
                    assert(pairs@.push((id, actor)) + d.0 =~= pairs@ + (seq![(id, actor)] + d.0));
                }
            }
            pairs.push((id, actor));
            i = i + 1;
        }
        proof {
            assert(pairs@ + Seq::<(ActorId, Actor)>::empty() =~= pairs@);
        }
        let count = match r.read_u32() {
            Ok(v) => v,
            Err(e) => {
                return Err(e);
            },
        };
        proof {
            if dec_actors(old(r)@) is Some {
                let n2 = (dec_pairs(s1, len as nat) -> 0).1;
                lemma_dec_pairs_bounds(s1, len as nat);
                lemma_skip_skip(old(r)@, 8int, n2);
                lemma_skip_skip(old(r)@, 8 + n2, 4int);
            }
        }
        match Actors::from_pairs(pairs, count) {
            Some(a) => Ok(a),
            None => Err(
                DecodingError::InvalidBytes(
                    InvalidBytes { desc: "registry ids duplicated or not below the counter" },
                ),
            ),
        }
    }
}

impl Game {
    pub fn encode(&self, w: &mut EncoderWriter)
        ensures
            final(w)@ == old(w)@ + enc_game(self.actors@, self.actors.spec_count(), self.time),
    {
        self.actors.encode(w);
        self.time.encode(w);
        assert(w@ =~= old(w)@ + enc_game(self.actors@, self.actors.spec_count(), self.time));
    }

    pub fn decode(r: &mut DecoderReader) -> (res: DecodingResult<Game>)
        ensures
            match dec_game(old(r)@) {
                Some(d) => (res matches Ok(g) && g.actors@ == (d.0).0 && g.actors.spec_count()
                    == (d.0).1 && g.time == (d.0).2 && final(r)@ == old(r)@.skip(d.1)),
                None => res.is_err(),
            },
    {
        let actors = match Actors::decode(r) {
            Ok(v) => v,
            Err(e) => {
                return Err(e);
            },
        };
        let time = match Real32::decode(r) {
            Ok(v) => v,
            Err(e) => {
                return Err(e);
            },
        };
        proof {
            if dec_game(old(r)@) is Some {
                let n1 = (dec_actors(old(r)@) -> 0).1;
                lemma_dec_actors_bounds(old(r)@);
                lemma_skip_skip(old(r)@, n1, 4int);
            }
        }
        Ok(Game { actors, time })
    }
}

/// A successful registry decode consumes no more bytes than there are.
pub proof fn lemma_dec_actors_bounds(s: Seq<u8>)
    ensures
        match dec_actors(s) {
            Some(d) => 0 <= d.1 <= s.len(),
            None => true,
        },
{
    match dec_usize(s) {
        None => {},
        Some((len, n1)) => {
            lemma_dec_pairs_bounds(s.skip(n1), len as nat);
        },
    }
}

impl PlayerGame {
    pub fn encode(&self, w: &mut EncoderWriter)
        ensures
            final(w)@ == old(w)@ + enc_player_game(
                self.player,
                self.game.actors@,
                self.game.actors.spec_count(),
                self.game.time,
            ),
    {
        w.emit_u32(self.player);
        self.game.encode(w);
        assert(w@ =~= old(w)@ + enc_player_game(
            self.player,
            self.game.actors@,
            self.game.actors.spec_count(),
            self.game.time,
        ));
    }

    pub fn decode(r: &mut DecoderReader) -> (res: DecodingResult<PlayerGame>)
        ensures
            match dec_player_game(old(r)@) {
                Some(d) => (res matches Ok(pg) && pg.player == (d.0).0 && pg.game.actors@ == (d.0).1
                    && pg.game.actors.spec_count() == (d.0).2 && pg.game.time == (d.0).3 && final(r)@
                    == old(r)@.skip(d.1)),
                None => res.is_err(),
            },
    {
        let player = match r.read_u32() {
            Ok(v) => v,
            Err(e) => {
                return Err(e);
            },
        };
        let game = match Game::decode(r) {
            Ok(v) => v,
            Err(e) => {
                return Err(e);
            },
        };
        proof {
            if dec_player_game(old(r)@) is Some {
                let n2 = (dec_game(old(r)@.skip(4)) -> 0).1;
                lemma_dec_game_bounds(old(r)@.skip(4));
                lemma_skip_skip(old(r)@, 4int, n2);
            }
        }
        Ok(PlayerGame { player, game })
    }
}

/// A successful snapshot decode consumes no more bytes than there are.
pub proof fn lemma_dec_game_bounds(s: Seq<u8>)
    ensures
        match dec_game(s) {
            Some(d) => 0 <= d.1 <= s.len(),
            None => true,
        },
{
    lemma_dec_actors_bounds(s);
}

// ---------------------------------------------------------------------
// Whole datagram bodies as byte vectors.

/// Serialize an input batch entry as a datagram body.
pub fn encode_input(v: &Input) -> (r: Vec<u8>)
    ensures
        r@ == enc_input(*v),
{
    let mut w = EncoderWriter::new();
    v.encode(&mut w);
    w.into_bytes()
}

/// Deserialize an input from a datagram body; trailing bytes are
/// ignored, as the transport frames each body on its own.
pub fn decode_input(bytes: Vec<u8>) -> (res: DecodingResult<Input>)
    ensures
        match dec_input(bytes@) {
            Some(d) => res == DecodingResult::<Input>::Ok(d.0),
            None => res.is_err(),
        },
{
    let mut r = DecoderReader::new(bytes);
    Input::decode(&mut r)
}

/// Serialize a player-addressed snapshot as a datagram body.
pub fn encode_player_game(v: &PlayerGame) -> (r: Vec<u8>)
    ensures
        r@ == enc_player_game(
            v.player,
            v.game.actors@,
            v.game.actors.spec_count(),
            v.game.time,
        ),
{
    let mut w = EncoderWriter::new();
    v.encode(&mut w);
    w.into_bytes()
}

/// Deserialize a player-addressed snapshot from a datagram body.
pub fn decode_player_game(bytes: Vec<u8>) -> (res: DecodingResult<PlayerGame>)
    ensures
        match dec_player_game(bytes@) {
            Some(d) => (res matches Ok(pg) && pg.player == (d.0).0 && pg.game.actors@ == (d.0).1
                && pg.game.actors.spec_count() == (d.0).2 && pg.game.time == (d.0).3),
            None => res.is_err(),
        },
{
    let mut r = DecoderReader::new(bytes);
    PlayerGame::decode(&mut r)
}

} // verus!
