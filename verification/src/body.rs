//! The body data model: fixed-point 2D vectors, the per-body state, the
//! error kinds, and the representable range of every stored quantity.

use vstd::prelude::*;

verus! {

/// A 2D vector of fixed-point micro-unit coordinates.
#[derive(Clone, Copy, Debug, PartialEq, Eq, Structural)]
pub struct Vec2 {
    pub x: i64,
    pub y: i64,
}

impl Vec2 {
    /// The origin.
    pub fn zero() -> (v: Vec2)
        ensures
            v.x == 0 && v.y == 0,
    {
        Vec2 { x: 0, y: 0 }
    }
}

/// One simulated body. Positions and velocities are micro-units and
/// micro-units per second; `radius` and `mass` are micro-units as well.
/// `id` is the body's index at setup and never changes, so it identifies
/// the body across frames. `crafts` is a derived display attribute in
/// `0..=CRAFTS_MAX`; the physics never reads it.
#[derive(Clone, Debug)]
pub struct Body {
    pub id: u64,
    pub name: String,
    pub position: Vec2,
    pub velocity: Vec2,
    pub radius: i64,
    pub mass: i64,
    pub crafts: u32,
}

/// Setup input for one body: everything but the derived attributes.
#[derive(Clone, Debug)]
pub struct BodyConfig {
    pub name: String,
    pub position: Vec2,
    pub velocity: Vec2,
    pub radius: i64,
    pub mass: i64,
}

/// The two error classes: a rejected setup, and an intermediate or stored
/// quantity that left the representable fixed-point range during a step
/// (the analogue of a non-finite float, surfaced instead of swallowed).
#[derive(Clone, Copy, Debug, PartialEq, Eq, Structural)]
pub enum SimError {
    InvalidBodyConfig,
    NumericOverflow,
}

/// Largest magnitude of a stored position coordinate (50 000 world units).
pub const POS_LIMIT: i64 = 50_000_000_000;

/// Largest magnitude of a stored velocity component (10 000 units/s).
pub const VEL_LIMIT: i64 = 10_000_000_000;

/// Largest stored mass (100 000 mass units).
pub const MASS_LIMIT: i64 = 100_000_000_000;

/// Largest radius (100 world units). Kept small enough that the mass the
/// density law derives from it always fits under `MASS_LIMIT`.
pub const RADIUS_LIMIT: i64 = 100_000_000;

/// Largest gravitational constant (1 000 in world units).
pub const G_LIMIT: i64 = 1_000_000_000;

/// Largest frame time step (1 000 seconds).
pub const DT_LIMIT: i64 = 1_000_000_000;

/// Largest magnitude of a stored energy value.
pub const ENERGY_LIMIT: i64 = 2_000_000_000_000_000_000;

/// Largest number of bodies in one simulation; the design targets a
/// handful.
pub const MAX_BODIES: usize = 1024;

/// Upper clamp of the derived `crafts` attribute.
pub const CRAFTS_MAX: u32 = 10;

/// A body whose stored values all lie in the representable range. A radius
/// is strictly positive (at least one micro-unit), which keeps the distance
/// floor of the force law strictly positive as well; a mass is never
/// negative.
pub open spec fn body_ok(b: Body) -> bool {
    &&& 1 <= b.radius <= RADIUS_LIMIT
    &&& 0 <= b.mass <= MASS_LIMIT
    &&& -POS_LIMIT <= b.position.x <= POS_LIMIT
    &&& -POS_LIMIT <= b.position.y <= POS_LIMIT
    &&& -VEL_LIMIT <= b.velocity.x <= VEL_LIMIT
    &&& -VEL_LIMIT <= b.velocity.y <= VEL_LIMIT
    &&& b.crafts <= CRAFTS_MAX
}

} // verus!
