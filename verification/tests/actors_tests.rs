//! The actor registry and the snapshot values it hands out.

use dogfights::actors::{Actor, Actors, Bullet, Camera, Game, PlayerInput, Shooter};
use dogfights::geom::{Real32, Rect, Transform, Vec2};
use dogfights::input::{Input, Rotating};
use dogfights::specs::{BulletSpec, CameraSpec, Color, GameMap, GameSpec, Spec, Sprite};

fn rbits(v: f32) -> Real32 {
    Real32 { bits: v.to_bits() }
}

fn vec2(x: f32, y: f32) -> Vec2 {
    Vec2 { x: rbits(x), y: rbits(y) }
}

fn bullet(spec: u32, x: f32, y: f32) -> Actor {
    Actor::Bullet(Bullet {
        spec,
        trans: Transform { pos: vec2(x, y), rotation: rbits(0.) },
        age: rbits(0.),
    })
}

fn tiny_spec() -> GameSpec {
    let sprite = Sprite {
        texture: 0,
        rect: Rect { pos: vec2(0., 0.), w: rbits(3.), h: rbits(12.) },
        center: vec2(1., 6.),
        angle: rbits(90.),
    };
    let bullet_spec = Spec::BulletSpec(BulletSpec {
        sprite,
        vel: rbits(1000.),
        lifetime: rbits(5000.),
        bbox: dogfights::specs::BBox { rects: vec![] },
    });
    GameSpec {
        map: GameMap {
            w: rbits(8000.),
            h: rbits(6000.),
            background_color: Color(0x58, 0xB7, 0xFF),
            background_texture: 0,
        },
        camera_spec: CameraSpec { accel: rbits(1.2), v_pad: rbits(165.), h_pad: rbits(220.) },
        ship_spec: 0,
        shooter_spec: 0,
        specs: vec![bullet_spec],
    }
}

#[test]
fn ids_are_issued_in_order_and_never_reused() {
    let mut actors = Actors::new();
    let a = actors.add(bullet(0, 1., 1.));
    let b = actors.add(bullet(0, 2., 2.));
    let c = actors.add(bullet(0, 3., 3.));
    assert_eq!((a, b, c), (0, 1, 2));
    assert_eq!(actors.keys(), vec![0, 1, 2]);
    assert_eq!(actors.count(), 3);

    // Removing does not free the id: the counter keeps climbing.
    assert!(actors.remove(b).is_some());
    assert_eq!(actors.keys(), vec![0, 2]);
    let d = actors.add(bullet(0, 4., 4.));
    assert_eq!(d, 3);
    assert_eq!(actors.count(), 4);
    assert!(actors.remove(b).is_none());
}

#[test]
fn insert_replaces_in_place() {
    let mut actors = Actors::new();
    let id = actors.add(bullet(0, 1., 1.));
    let _ = actors.add(bullet(0, 2., 2.));
    actors.insert(id, bullet(0, 9., 9.));
    assert_eq!(actors.len(), 2);
    assert_eq!(actors.keys(), vec![0, 1]);
    assert_eq!(*actors.get(id).unwrap(), bullet(0, 9., 9.));
    assert!(actors.get(7).is_none());
}

#[test]
fn prepare_new_keeps_the_counter() {
    let mut actors = Actors::new();
    let _ = actors.add(bullet(0, 1., 1.));
    let _ = actors.add(bullet(0, 2., 2.));
    let mut next = Actors::prepare_new(&actors);
    assert_eq!(next.len(), 0);
    assert_eq!(next.count(), 2);
    // The next tick's spawns cannot collide with surviving ids.
    let fresh = next.add(bullet(0, 3., 3.));
    assert_eq!(fresh, 2);
}

#[test]
fn lookup_takes_the_last_input_for_an_actor() {
    let mut left = Input::new();
    left.rotating = Rotating::Left;
    let mut right = Input::new();
    right.rotating = Rotating::Right;
    let inputs = vec![
        PlayerInput { player: 4, input: left },
        PlayerInput { player: 9, input: Input::new() },
        PlayerInput { player: 4, input: right },
    ];
    assert_eq!(PlayerInput::lookup(&inputs, 4), Some(right));
    assert_eq!(PlayerInput::lookup(&inputs, 9), Some(Input::new()));
    assert_eq!(PlayerInput::lookup(&inputs, 5), None);
}

#[test]
fn a_new_ship_starts_mid_screen_and_ready_to_fire() {
    let spec = tiny_spec();
    let mut game = Game::new();
    let player = game.add_ship(&spec);
    assert_eq!(player, 0);
    let ship = match game.actors.get(player).unwrap() {
        Actor::Ship(ship) => *ship,
        _ => panic!("a joiner gets a ship"),
    };
    // The bit-pattern constants stand for these very numbers.
    assert_eq!(ship.trans.pos, vec2(400., 300.));
    assert_eq!(ship.trans.rotation, rbits(0.));
    assert_eq!(ship.vel, vec2(0., 0.));
    assert_eq!(ship.not_firing_for, rbits(100000.));
    assert_eq!(ship.camera.pos, vec2(0., 0.));
    assert_eq!(ship.camera.vel, vec2(0., 0.));
    assert!(!ship.accel);
    assert_eq!(ship.rotating, Rotating::Still);
}

#[test]
fn camera_transform_is_a_pure_translation() {
    let cam = Camera { pos: vec2(5., 6.), vel: vec2(1., 2.) };
    let t = cam.transform();
    assert_eq!(t.pos, vec2(5., 6.));
    assert_eq!(t.rotation, rbits(0.));
}

#[test]
fn catalog_lookup_returns_the_entry() {
    let spec = tiny_spec();
    match spec.get_spec(0) {
        Spec::BulletSpec(b) => assert_eq!(b.vel, rbits(1000.)),
        _ => panic!("slot 0 holds the bullet"),
    }
    assert_eq!(spec.get_spec(0).is_bullet().lifetime, rbits(5000.));
    let _ = Shooter { spec: 0, time_since_fire: rbits(0.) };
}
