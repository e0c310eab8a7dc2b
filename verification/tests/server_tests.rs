//! The snapshot ring: its bound, its order, and the join/leave edits
//! of the current snapshot.

use dogfights::actors::{Actor, Game};
use dogfights::geom::Real32;
use dogfights::server::SnapshotRing;
use dogfights::specs::{BulletSpec, CameraSpec, Color, GameMap, GameSpec, Spec, Sprite};
use dogfights::geom::{Rect, Vec2};
use dogfights::SERVER_GAMES;

fn rbits(v: f32) -> Real32 {
    Real32 { bits: v.to_bits() }
}

fn vec2(x: f32, y: f32) -> Vec2 {
    Vec2 { x: rbits(x), y: rbits(y) }
}

fn stamped(t: f32) -> Game {
    let mut g = Game::new();
    g.time = rbits(t);
    g
}

fn tiny_spec() -> GameSpec {
    let sprite = Sprite {
        texture: 0,
        rect: Rect { pos: vec2(0., 0.), w: rbits(3.), h: rbits(12.) },
        center: vec2(1., 6.),
        angle: rbits(90.),
    };
    GameSpec {
        map: GameMap {
            w: rbits(8000.),
            h: rbits(6000.),
            background_color: Color(0x58, 0xB7, 0xFF),
            background_texture: 0,
        },
        camera_spec: CameraSpec { accel: rbits(1.2), v_pad: rbits(165.), h_pad: rbits(220.) },
        ship_spec: 0,
        shooter_spec: 0,
        specs: vec![Spec::BulletSpec(BulletSpec {
            sprite,
            vel: rbits(1000.),
            lifetime: rbits(5000.),
            bbox: dogfights::specs::BBox { rects: vec![] },
        })],
    }
}

#[test]
fn the_ring_never_runs_empty_and_never_outgrows_its_bound() {
    let mut ring = SnapshotRing::new(stamped(0.));
    assert_eq!(ring.len(), 1);
    for i in 0..(2 * SERVER_GAMES) {
        ring.push(stamped(i as f32));
        assert!(ring.len() >= 1);
        assert!(ring.len() <= SERVER_GAMES);
        assert_eq!(*ring.front(), stamped(i as f32));
    }
    assert_eq!(ring.len(), SERVER_GAMES);
}

#[test]
fn pushing_past_the_bound_discards_the_oldest() {
    let mut ring = SnapshotRing::new(stamped(0.));
    for i in 1..=SERVER_GAMES {
        ring.push(stamped(i as f32));
    }
    // The ring is full; snapshot 0 has just fallen out.
    assert_eq!(ring.len(), SERVER_GAMES);
    assert_eq!(*ring.front(), stamped(SERVER_GAMES as f32));
}

#[test]
fn joining_and_leaving_edit_the_current_snapshot() {
    let spec = tiny_spec();
    let mut ring = SnapshotRing::new(Game::new());
    let player = ring.join(&spec);
    assert_eq!(player, 0);
    assert_eq!(ring.front().actors.len(), 1);
    assert!(matches!(
        ring.front().actors.get(player),
        Some(Actor::Ship(_))
    ));

    let other = ring.join(&spec);
    assert_eq!(other, 1);
    assert_eq!(ring.front().actors.len(), 2);

    ring.remove_actor(player);
    assert_eq!(ring.front().actors.len(), 1);
    assert!(ring.front().actors.get(player).is_none());
    assert!(ring.front().actors.get(other).is_some());

    // Leaving twice is harmless.
    ring.remove_actor(player);
    assert_eq!(ring.front().actors.len(), 1);
}
