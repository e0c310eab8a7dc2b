//! The immutable world catalog: what kinds of ships, bullets and
//! shooters exist, and the map they live on.  Built once at startup and
//! shared read-only afterwards.

use vstd::prelude::*;

use crate::geom::{Real32, Rect, Transform, Vec2};

verus! {

/// Index of a texture in the display backend's registry.
pub type TextureId = u32;

/// Index of an entry in the world catalog.
pub type SpecId = u32;

/// An RGB color.
#[derive(PartialEq, Eq, Structural, Clone, Copy, Debug)]
pub struct Color(pub u8, pub u8, pub u8);

/// A region of a texture, its center, and a pre-applied rotation.
#[derive(PartialEq, Eq, Structural, Clone, Copy, Debug)]
pub struct Sprite {
    pub texture: TextureId,
    pub rect: Rect,
    pub center: Vec2,
    /// If the sprite artwork is already rotated by some angle.
    pub angle: Real32,
}

/// The world extent and backdrop.
#[derive(PartialEq, Eq, Structural, Clone, Copy, Debug)]
pub struct GameMap {
    pub w: Real32,
    pub h: Real32,
    pub background_color: Color,
    pub background_texture: TextureId,
}

/// An ordered collection of rectangles that together bound an actor.
#[derive(PartialEq, Clone, Debug)]
pub struct BBox {
    pub rects: Vec<Rect>,
}

/// How a ship's camera chases it.
#[derive(PartialEq, Eq, Structural, Clone, Copy, Debug)]
pub struct CameraSpec {
    pub accel: Real32,
    /// The minimum distance from the top/bottom edges to the ship.
    pub v_pad: Real32,
    /// The minimum distance from the left/right edges to the ship.
    pub h_pad: Real32,
}

/// Everything fixed about a kind of ship.
#[derive(PartialEq, Clone, Debug)]
pub struct ShipSpec {
    pub rotation_vel: Real32,
    pub rotation_vel_accel: Real32,
    pub accel: Real32,
    pub friction: Real32,
    pub gravity: Real32,
    pub sprite: Sprite,
    pub sprite_accel: Sprite,
    pub bullet_spec: SpecId,
    pub firing_interval: Real32,
    pub shoot_from: Vec2,
    pub bbox: BBox,
}

/// Everything fixed about a kind of bullet.
#[derive(PartialEq, Clone, Debug)]
pub struct BulletSpec {
    pub sprite: Sprite,
    pub vel: Real32,
    pub lifetime: Real32,
    pub bbox: BBox,
}

/// Everything fixed about a stationary shooter.
#[derive(PartialEq, Eq, Structural, Clone, Copy, Debug)]
pub struct ShooterSpec {
    pub sprite: Sprite,
    pub trans: Transform,
    pub bullet_spec: SpecId,
    pub firing_rate: Real32,
}

/// One entry of the world catalog.
#[derive(PartialEq, Clone, Debug)]
pub enum Spec {
    ShipSpec(ShipSpec),
    ShooterSpec(ShooterSpec),
    BulletSpec(BulletSpec),
}

impl Spec {
    /// The ship entry behind this catalog slot.  Asking this of another
    /// variant is a programming error, so callers must rule it out.
    pub fn is_ship(&self) -> (r: &ShipSpec)
        requires
            self is ShipSpec,
        ensures
            *self == Spec::ShipSpec(*r),
    {
        match self {
            Spec::ShipSpec(spec) => spec,
            _ => unreached(),
        }
    }

    /// The shooter entry behind this catalog slot.
    pub fn is_shooter(&self) -> (r: &ShooterSpec)
        requires
            self is ShooterSpec,
        ensures
            *self == Spec::ShooterSpec(*r),
    {
        match self {
            Spec::ShooterSpec(spec) => spec,
            _ => unreached(),
        }
    }

    /// The bullet entry behind this catalog slot.
    pub fn is_bullet(&self) -> (r: &BulletSpec)
        requires
            self is BulletSpec,
        ensures
            *self == Spec::BulletSpec(*r),
    {
        match self {
            Spec::BulletSpec(spec) => spec,
            _ => unreached(),
        }
    }
}

/// The whole immutable world description.
#[derive(PartialEq, Clone, Debug)]
pub struct GameSpec {
    pub map: GameMap,
    pub camera_spec: CameraSpec,
    /// Catalog id of the ship given to new joiners.
    pub ship_spec: SpecId,
    /// Catalog id of the default shooter.
    pub shooter_spec: SpecId,
    pub specs: Vec<Spec>,
}

impl GameSpec {
    /// Look a catalog entry up.  Ids held by actors always resolve, so
    /// callers must pass a valid id.
    pub fn get_spec(&self, spec_id: SpecId) -> (r: &Spec)
        requires
            spec_id < self.specs@.len(),
        ensures
            *r == self.specs@[spec_id as int],
    {
        &self.specs[spec_id as usize]
    }
}

} // verus!
