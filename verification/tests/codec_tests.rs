//! The wire codec, exercised on concrete values: exact bytes for the
//! primitives, the round trip for whole snapshots, and the inputs on
//! which decoding must refuse.

use dogfights::actors::{Actor, Actors, Bullet, Camera, Game, PlayerGame, Ship, Shooter};
use dogfights::codec::{DecoderReader, DecodingError, EncoderWriter};
use dogfights::geom::{Real32, Transform, Vec2};
use dogfights::input::{Input, Rotating};
use dogfights::wire::{decode_input, decode_player_game, encode_input, encode_player_game};

fn rbits(v: f32) -> Real32 {
    Real32 { bits: v.to_bits() }
}

fn vec2(x: f32, y: f32) -> Vec2 {
    Vec2 { x: rbits(x), y: rbits(y) }
}

#[test]
fn test_encoding() {
    let ship = Ship {
        spec: 1,
        trans: Transform { pos: vec2(400., 300.005), rotation: rbits(0.) },
        vel: vec2(0., 0.9999),
        not_firing_for: rbits(100000.01),
        accel: false,
        rotating: Rotating::Still,
        camera: Camera { pos: vec2(0., 0.011999), vel: vec2(0., 1.19988) },
    };
    let mut actors = Actors::new();
    let id = actors.add(Actor::Ship(ship));
    assert_eq!(id, 0);
    let game = PlayerGame {
        player: 0,
        game: Game { actors, time: rbits(0.) },
    };
    let bytes = encode_player_game(&game);
    let decoded = decode_player_game(bytes).unwrap();
    assert_eq!(decoded, game);
}

#[test]
fn primitives_are_big_endian() {
    let mut w = EncoderWriter::new();
    w.emit_u32(0xD05F1575);
    assert_eq!(w.into_bytes(), vec![0xD0, 0x5F, 0x15, 0x75]);

    let mut w = EncoderWriter::new();
    w.emit_u16(0x1234);
    assert_eq!(w.into_bytes(), vec![0x12, 0x34]);

    let mut w = EncoderWriter::new();
    w.emit_u64(1234);
    assert_eq!(w.into_bytes(), vec![0, 0, 0, 0, 0, 0, 0x04, 0xD2]);

    let mut w = EncoderWriter::new();
    w.emit_i64(-2);
    assert_eq!(
        w.into_bytes(),
        vec![0xFF, 0xFF, 0xFF, 0xFF, 0xFF, 0xFF, 0xFF, 0xFE]
    );

    let mut w = EncoderWriter::new();
    w.emit_bool(true);
    w.emit_bool(false);
    assert_eq!(w.into_bytes(), vec![1, 0]);

    // A real number travels as the bytes of its IEEE-754 pattern.
    let mut w = EncoderWriter::new();
    rbits(1.0).encode(&mut w);
    assert_eq!(w.into_bytes(), vec![0x3F, 0x80, 0x00, 0x00]);
}

#[test]
fn primitive_round_trips() {
    let mut w = EncoderWriter::new();
    w.emit_u8(7);
    w.emit_u16(513);
    w.emit_u32(70000);
    w.emit_u64(1 << 40);
    w.emit_i8(-5);
    w.emit_i16(-513);
    w.emit_i32(-70000);
    w.emit_i64(-(1i64 << 40));
    w.emit_usize(99);
    w.emit_bool(true);
    w.emit_option_tag(false);
    let mut r = DecoderReader::new(w.into_bytes());
    assert_eq!(r.read_u8().unwrap(), 7);
    assert_eq!(r.read_u16().unwrap(), 513);
    assert_eq!(r.read_u32().unwrap(), 70000);
    assert_eq!(r.read_u64().unwrap(), 1 << 40);
    assert_eq!(r.read_i8().unwrap(), -5);
    assert_eq!(r.read_i16().unwrap(), -513);
    assert_eq!(r.read_i32().unwrap(), -70000);
    assert_eq!(r.read_i64().unwrap(), -(1i64 << 40));
    assert_eq!(r.read_usize().unwrap(), 99);
    assert_eq!(r.read_bool().unwrap(), true);
    assert_eq!(r.read_option_tag().unwrap(), false);
    assert_eq!(r.remaining(), 0);
}

#[test]
fn input_bytes_and_round_trip() {
    // Field order: quit, accel, firing, rotating tag, paused.
    let neutral = Input::new();
    assert_eq!(encode_input(&neutral), vec![0, 0, 0, 0, 0]);

    let busy = Input {
        quit: false,
        accel: true,
        firing: true,
        rotating: Rotating::Right,
        paused: false,
    };
    assert_eq!(encode_input(&busy), vec![0, 1, 1, 2, 0]);
    assert_eq!(decode_input(encode_input(&busy)).unwrap(), busy);

    let left = Input {
        quit: true,
        accel: false,
        firing: false,
        rotating: Rotating::Left,
        paused: true,
    };
    assert_eq!(decode_input(encode_input(&left)).unwrap(), left);
}

#[test]
fn invalid_bytes_are_refused() {
    // A bool byte must be 0 or 1.
    let mut r = DecoderReader::new(vec![2]);
    assert!(matches!(
        r.read_bool(),
        Err(DecodingError::InvalidBytes(_))
    ));

    // An option tag must be 0 or 1.
    let mut r = DecoderReader::new(vec![9]);
    assert!(matches!(
        r.read_option_tag(),
        Err(DecodingError::InvalidBytes(_))
    ));

    // Input that runs out mid-value.
    let mut r = DecoderReader::new(vec![0x12, 0x34, 0x56]);
    assert!(matches!(r.read_u32(), Err(DecodingError::EndOfInput)));

    // A variant tag past the last variant.
    assert!(matches!(
        decode_input(vec![0, 0, 0, 3, 0]),
        Err(DecodingError::InvalidBytes(_))
    ));

    // A truncated input body.
    assert!(matches!(
        decode_input(vec![0, 0]),
        Err(DecodingError::EndOfInput)
    ));
}

#[test]
fn registry_decoding_demands_well_formed_ids() {
    // Hand-build a registry body whose two pairs share an id.
    let bullet = Actor::Bullet(Bullet {
        spec: 0,
        trans: Transform { pos: vec2(1., 2.), rotation: rbits(0.) },
        age: rbits(0.),
    });
    let mut w = EncoderWriter::new();
    w.emit_usize(2);
    w.emit_u32(4);
    bullet.encode(&mut w);
    w.emit_u32(4);
    bullet.encode(&mut w);
    w.emit_u32(5); // the counter
    let mut r = DecoderReader::new(w.into_bytes());
    assert!(matches!(
        Actors::decode(&mut r),
        Err(DecodingError::InvalidBytes(_))
    ));

    // And one whose single id is not below the counter.
    let mut w = EncoderWriter::new();
    w.emit_usize(1);
    w.emit_u32(7);
    bullet.encode(&mut w);
    w.emit_u32(7); // the counter: must exceed every id
    let mut r = DecoderReader::new(w.into_bytes());
    assert!(matches!(
        Actors::decode(&mut r),
        Err(DecodingError::InvalidBytes(_))
    ));
}

#[test]
fn every_actor_variant_round_trips() {
    let mut actors = Actors::new();
    actors.add(Actor::Ship(Ship {
        spec: 1,
        trans: Transform { pos: vec2(10., -20.), rotation: rbits(1.5) },
        vel: vec2(-3., 4.),
        not_firing_for: rbits(0.25),
        accel: true,
        rotating: Rotating::Left,
        camera: Camera { pos: vec2(0., 0.), vel: vec2(1., 1.) },
    }));
    actors.add(Actor::Shooter(Shooter { spec: 2, time_since_fire: rbits(0.05) }));
    actors.add(Actor::Bullet(Bullet {
        spec: 0,
        trans: Transform { pos: vec2(7., 8.), rotation: rbits(-0.5) },
        age: rbits(0.1),
    }));
    let game = PlayerGame {
        player: 0,
        game: Game { actors, time: rbits(12.3) },
    };
    let decoded = decode_player_game(encode_player_game(&game)).unwrap();
    assert_eq!(decoded, game);
}
