//! The simulation instance and its passes: setup, the mass and craft
//! derivers, the orbit initializer, the per-frame force/integration step,
//! and the energy and center-of-mass monitors.

use crate::body::{
    body_ok, Body, BodyConfig, SimError, Vec2, CRAFTS_MAX, DT_LIMIT, ENERGY_LIMIT, G_LIMIT,
    MASS_LIMIT, MAX_BODIES, POS_LIMIT, RADIUS_LIMIT, VEL_LIMIT,
};
use crate::model::{all_bodies_ok, config_ok, mass_of_radius, DENSITY_UNITS, PI_UNITS};
use crate::num::{div_trunc, lemma_divt_mag, UNIT};
use vstd::prelude::*;

verus! {

/// A body as created at setup: the config row, the next free id, and no
/// crafts yet.
pub open spec fn body_of_config(c: BodyConfig, id: int) -> Body {
    Body {
        id: id as u64,
        name: c.name,
        position: c.position,
        velocity: c.velocity,
        radius: c.radius,
        mass: c.mass,
        crafts: 0,
    }
}

/// The body `b` with its mass replaced by the one the density law derives
/// from its radius.
pub open spec fn body_with_derived_mass(b: Body) -> Body {
    Body { mass: mass_of_radius(b.radius as int) as i64, ..b }
}

/// One simulation instance: the fixed body set, the gravitational constant,
/// and the per-frame diagnostics. The host mutates bodies only through the
/// methods here; the only presentation-side feedback is the craft count.
pub struct Simulation {
    g: i64,
    bodies: Vec<Body>,
    potential_energy: i64,
    kinetic_energy: i64,
    total_energy: i64,
    center_of_mass: Vec2,
}

impl Simulation {
    /// The body set, in setup order.
    pub closed spec fn bodies_seq(&self) -> Seq<Body> {
        self.bodies@
    }

    /// The gravitational constant of this instance.
    pub closed spec fn grav(&self) -> int {
        self.g as int
    }

    /// The stored potential energy diagnostic.
    pub closed spec fn pe(&self) -> int {
        self.potential_energy as int
    }

    /// The stored kinetic energy diagnostic.
    pub closed spec fn ke(&self) -> int {
        self.kinetic_energy as int
    }

    /// The stored total energy diagnostic.
    pub closed spec fn te(&self) -> int {
        self.total_energy as int
    }

    /// The stored center-of-mass diagnostic.
    pub closed spec fn com(&self) -> Vec2 {
        self.center_of_mass
    }

    /// The instance invariant: a bounded body count, a bounded constant,
    /// every body in range, ids equal to setup positions, and stored energy
    /// diagnostics in range.
    pub closed spec fn wf(&self) -> bool {
        &&& self.bodies@.len() <= MAX_BODIES
        &&& 0 <= self.g <= G_LIMIT
        &&& all_bodies_ok(self.bodies@)
        &&& forall|i: int| 0 <= i < self.bodies@.len() ==> #[trigger] self.bodies@[i].id == i
        &&& -ENERGY_LIMIT <= self.potential_energy <= ENERGY_LIMIT
        &&& 0 <= self.kinetic_energy <= ENERGY_LIMIT
    }

    /// Creates a simulation from the setup rows. Rejects the whole setup
    /// with `InvalidBodyConfig` exactly when the constant, the body count,
    /// or some row is out of range (a non-positive radius or a negative
    /// mass, among the rest). Ids are assigned in row order and never
    /// change.
    pub fn new(g: i64, configs: Vec<BodyConfig>) -> (r: Result<Simulation, SimError>)
        ensures
            match r {
                Ok(sim) => {
                    &&& sim.wf()
                    &&& 0 <= g <= G_LIMIT
                    &&& configs@.len() <= MAX_BODIES
                    &&& forall|i: int| 0 <= i < configs@.len() ==> config_ok(#[trigger] configs@[i])
                    &&& sim.grav() == g as int
                    &&& sim.bodies_seq().len() == configs@.len()
                    &&& forall|i: int| 0 <= i < configs@.len() ==> #[trigger] sim.bodies_seq()[i]
                        == body_of_config(configs@[i], i)
                    &&& sim.pe() == 0
                    &&& sim.ke() == 0
                    &&& sim.te() == 0
                    &&& sim.com() == (Vec2 { x: 0, y: 0 })
                },
                Err(e) => {
                    &&& e == SimError::InvalidBodyConfig
                    &&& !({
                        &&& 0 <= g <= G_LIMIT
                        &&& configs@.len() <= MAX_BODIES
                        &&& forall|i: int| 0 <= i < configs@.len() ==> config_ok(
                            #[trigger] configs@[i])
                    })
                },
            },
    {
        if g < 0 || g > G_LIMIT {
            return Err(SimError::InvalidBodyConfig);
        }
        let n = configs.len();
        if n > MAX_BODIES {
            return Err(SimError::InvalidBodyConfig);
        }
        let mut bodies: Vec<Body> = Vec::new();
        let mut i: usize = 0;
        while i < n
            invariant
                i <= n,
                n == configs@.len() <= MAX_BODIES,
                bodies@.len() == i,
                forall|k: int| 0 <= k < i ==> config_ok(#[trigger] configs@[k]),
                forall|k: int| 0 <= k < i ==> #[trigger] bodies@[k] == body_of_config(
                    configs@[k], k),
                forall|k: int| 0 <= k < i ==> body_ok(#[trigger] bodies@[k]),
            decreases n - i,
        {
            let c = &configs[i];
            if c.radius < 1 || c.radius > RADIUS_LIMIT || c.mass < 0 || c.mass > MASS_LIMIT
                || c.position.x < -POS_LIMIT || c.position.x > POS_LIMIT
                || c.position.y < -POS_LIMIT || c.position.y > POS_LIMIT
                || c.velocity.x < -VEL_LIMIT || c.velocity.x > VEL_LIMIT
                || c.velocity.y < -VEL_LIMIT || c.velocity.y > VEL_LIMIT {
                return Err(SimError::InvalidBodyConfig);
            }
            let body = Body {
                id: i as u64,
                name: c.name.clone(),
                position: c.position,
                velocity: c.velocity,
                radius: c.radius,
                mass: c.mass,
                crafts: 0,
            };
            bodies.push(body);
            i += 1;
        }
        Ok(Simulation {
            g,
            bodies,
            potential_energy: 0,
            kinetic_energy: 0,
            total_energy: 0,
            center_of_mass: Vec2 { x: 0, y: 0 },
        })
    }

    /// Recomputes every body's mass from its radius under the fixed density
    /// law; nothing else changes. Runs once after setup, before the orbit
    /// initializer, and whenever geometry changes.
    pub fn assign_masses(&mut self)
        requires
            old(self).wf(),
        ensures
            final(self).wf(),
            final(self).bodies_seq().len() == old(self).bodies_seq().len(),
            forall|i: int| 0 <= i < old(self).bodies_seq().len()
                ==> #[trigger] final(self).bodies_seq()[i] == body_with_derived_mass(
                old(self).bodies_seq()[i]),
            final(self).grav() == old(self).grav(),
            final(self).pe() == old(self).pe(),
            final(self).ke() == old(self).ke(),
            final(self).te() == old(self).te(),
            final(self).com() == old(self).com(),
    {
        let n = self.bodies.len();
        let mut i: usize = 0;
        while i < n
            invariant
                i <= n,
                n == self.bodies@.len(),
                self.bodies@.len() == old(self).bodies@.len(),
                self.g == old(self).g,
                self.potential_energy == old(self).potential_energy,
                self.kinetic_energy == old(self).kinetic_energy,
                self.total_energy == old(self).total_energy,
                self.center_of_mass == old(self).center_of_mass,
                old(self).wf(),
                forall|k: int| 0 <= k < n ==> body_ok(#[trigger] old(self).bodies@[k]),
                forall|k: int| i <= k < n ==> #[trigger] self.bodies@[k] == old(self).bodies@[k],
                forall|k: int| 0 <= k < i ==> #[trigger] self.bodies@[k] == body_with_derived_mass(
                    old(self).bodies@[k]),
                forall|k: int| 0 <= k < i ==> body_ok(#[trigger] self.bodies@[k]),
            decreases n - i,
        {
            let m = mass_from_radius(self.bodies[i].radius);
            let b = &mut self.bodies[i];
            b.mass = m;
            i += 1;
        }
        proof {
            assert(forall|k: int| 0 <= k < self.bodies@.len() ==> #[trigger] self.bodies@[k].id
                == old(self).bodies@[k].id);
        }
    }

    /// The total acceleration on body `i` from every other body, summed in
    /// index order: the exact value of the model's accumulation.
    fn total_accel(&self, i: usize) -> (a: (i128, i128))
        requires
            self.wf(),
            i < self.bodies@.len(),
        ensures
            a.0 == crate::model::accel_total_x(self.bodies@, self.grav(), i as int),
            a.1 == crate::model::accel_total_y(self.bodies@, self.grav(), i as int),
            -25_600_000_000_000_000_000_000_000_000 <= a.0 <= 25_600_000_000_000_000_000_000_000_000,
            -25_600_000_000_000_000_000_000_000_000 <= a.1 <= 25_600_000_000_000_000_000_000_000_000,
    {
        let n = self.bodies.len();
        let mut ax: i128 = 0;
        let mut ay: i128 = 0;
        let mut j: usize = 0;
        while j < n
            invariant
                self.wf(),
                i < n,
                j <= n,
                n == self.bodies@.len() <= MAX_BODIES,
                ax == crate::model::accel_sum_x(self.bodies@, self.grav(), i as int, j as int),
                ay == crate::model::accel_sum_y(self.bodies@, self.grav(), i as int, j as int),
                -(j as i128) * 25_000_000_000_000_000_000_000_000 <= ax,
                ax <= (j as i128) * 25_000_000_000_000_000_000_000_000,
                -(j as i128) * 25_000_000_000_000_000_000_000_000 <= ay,
                ay <= (j as i128) * 25_000_000_000_000_000_000_000_000,
            decreases n - j,
        {
            if j != i {
                let (cx, cy) = pair_accel(self.g, &self.bodies[i], &self.bodies[j]);
                ax = ax + cx;
                ay = ay + cy;
            }
            j += 1;
        }
        (ax, ay)
    }

    /// The per-frame force pass: recomputes every pairwise acceleration
    /// from one consistent position snapshot, accumulates the potential
    /// energy of each unordered pair, and then applies one semi-implicit
    /// Euler velocity update to every body. A non-positive `dt` is a safe
    /// no-op. The pass fails with `NumericOverflow`, leaving the state
    /// unchanged, exactly when `dt` exceeds `DT_LIMIT` or some pair energy,
    /// the total potential energy, or some updated velocity leaves the
    /// representable range.
    pub fn gravity(&mut self, dt: i64) -> (r: Result<(), SimError>)
        requires
            old(self).wf(),
        ensures
            final(self).wf(),
            dt <= 0 ==> r == Ok::<(), SimError>(()) && *final(self) == *old(self),
            dt > DT_LIMIT ==> r == Err::<(), SimError>(SimError::NumericOverflow) && *final(self)
                == *old(self),
            0 < dt <= DT_LIMIT ==> if crate::model::gravity_ok(
                old(self).bodies_seq(),
                old(self).grav(),
                dt as int,
            ) {
                &&& r == Ok::<(), SimError>(())
                &&& final(self).bodies_seq().len() == old(self).bodies_seq().len()
                &&& forall|i: int| 0 <= i < old(self).bodies_seq().len()
                    ==> #[trigger] final(self).bodies_seq()[i] == crate::model::body_after_gravity(
                    old(self).bodies_seq(), old(self).grav(), dt as int, i)
                &&& final(self).pe() == crate::model::pe_total(
                    old(self).bodies_seq(), old(self).grav())
                &&& final(self).grav() == old(self).grav()
                &&& final(self).ke() == old(self).ke()
                &&& final(self).te() == old(self).te()
                &&& final(self).com() == old(self).com()
            } else {
                r == Err::<(), SimError>(SimError::NumericOverflow) && *final(self) == *old(self)
            },
    {
        if dt <= 0 {
            return Ok(());
        }
        if dt > DT_LIMIT {
            return Err(SimError::NumericOverflow);
        }
        let n = self.bodies.len();
        let ghost s = self.bodies@;
        let ghost g = self.grav();
        let mut vels: Vec<Vec2> = Vec::new();
        let mut i: usize = 0;
        while i < n
            invariant
                self.wf(),
                *self == *old(self),
                0 < dt <= DT_LIMIT,
                i <= n,
                n == self.bodies@.len() <= MAX_BODIES,
                s == self.bodies@,
                g == self.grav(),
                vels@.len() == i,
                forall|k: int| 0 <= k < i ==> crate::model::vel_after_fits(s, g, dt as int, k),
                forall|k: int| 0 <= k < i ==> (#[trigger] vels@[k]).x
                    == crate::model::vel_after_x(s, g, dt as int, k),
                forall|k: int| 0 <= k < i ==> (#[trigger] vels@[k]).y
                    == crate::model::vel_after_y(s, g, dt as int, k),
            decreases n - i,
        {
            let (ax, ay) = self.total_accel(i);
            proof {
                assert(-30_000_000_000_000_000_000_000_000_000_000_000_000 <= ax * dt
                    <= 30_000_000_000_000_000_000_000_000_000_000_000_000) by (nonlinear_arith)
                    requires
                        -25_600_000_000_000_000_000_000_000_000 <= ax
                            <= 25_600_000_000_000_000_000_000_000_000,
                        0 < dt <= 1_000_000_000,
                ;
                assert(-30_000_000_000_000_000_000_000_000_000_000_000_000 <= ay * dt
                    <= 30_000_000_000_000_000_000_000_000_000_000_000_000) by (nonlinear_arith)
                    requires
                        -25_600_000_000_000_000_000_000_000_000 <= ay
                            <= 25_600_000_000_000_000_000_000_000_000,
                        0 < dt <= 1_000_000_000,
                ;
            }
            let dvx = div_trunc(ax * (dt as i128), 1_000_000);
            let dvy = div_trunc(ay * (dt as i128), 1_000_000);
            let nvx = (self.bodies[i].velocity.x as i128) + dvx;
            let nvy = (self.bodies[i].velocity.y as i128) + dvy;
            if nvx < -(VEL_LIMIT as i128) || nvx > VEL_LIMIT as i128 || nvy < -(VEL_LIMIT as i128)
                || nvy > VEL_LIMIT as i128 {
                proof {
                    assert(!crate::model::vel_after_fits(s, g, dt as int, i as int));
                    assert(!crate::model::gravity_ok(s, g, dt as int));
                }
                return Err(SimError::NumericOverflow);
            }
            vels.push(Vec2 { x: nvx as i64, y: nvy as i64 });
            i += 1;
        }
        let mut pe_acc: i128 = 0;
        let mut i: usize = 0;
        while i < n
            invariant
                self.wf(),
                *self == *old(self),
                0 < dt <= DT_LIMIT,
                i <= n,
                n == self.bodies@.len() <= MAX_BODIES,
                s == self.bodies@,
                g == self.grav(),
                pe_acc == crate::model::pe_upto(s, g, i as int),
                -(i as i128) * 2_048_000_000_000_000_000_000 <= pe_acc <= 0,
                forall|a: int, b: int| 0 <= a < b < n && a < i ==> crate::model::pe_pair_fits(
                    s, g, a, b),
            decreases n - i,
        {
            let mut j: usize = i + 1;
            while j < n
                invariant
                    self.wf(),
                    *self == *old(self),
                    0 < dt <= DT_LIMIT,
                    i < n,
                    i + 1 <= j <= n,
                    n == self.bodies@.len() <= MAX_BODIES,
                    s == self.bodies@,
                    g == self.grav(),
                    pe_acc == crate::model::pe_upto(s, g, i as int) + crate::model::pe_row(
                        s, g, i as int, j as int),
                    -(i as i128) * 2_048_000_000_000_000_000_000 - (j as i128)
                        * 2_000_000_000_000_000_000 <= pe_acc <= 0,
                    forall|a: int, b: int| 0 <= a < b < n && a < i
                        ==> crate::model::pe_pair_fits(s, g, a, b),
                    forall|b: int| i < b < j ==> crate::model::pe_pair_fits(s, g, i as int, b),
                decreases n - j,
            {
                let p = pair_pe(self.g, &self.bodies[i], &self.bodies[j]);
                if p < -(ENERGY_LIMIT as i128) {
                    proof {
                        assert(!crate::model::pe_pair_fits(s, g, i as int, j as int));
                        assert(!crate::model::gravity_ok(s, g, dt as int));
                    }
                    return Err(SimError::NumericOverflow);
                }
                pe_acc = pe_acc + p;
                j += 1;
            }
            i += 1;
        }
        if pe_acc < -(ENERGY_LIMIT as i128) {
            proof {
                assert(!crate::model::gravity_ok(s, g, dt as int));
            }
            return Err(SimError::NumericOverflow);
        }
        proof {
            assert(crate::model::gravity_ok(s, g, dt as int));
        }
        let mut i: usize = 0;
        while i < n
            invariant
                0 < dt <= DT_LIMIT,
                i <= n,
                n == self.bodies@.len(),
                self.bodies@.len() == old(self).bodies@.len(),
                s == old(self).bodies@,
                g == old(self).grav(),
                self.g == old(self).g,
                self.potential_energy == old(self).potential_energy,
                self.kinetic_energy == old(self).kinetic_energy,
                self.total_energy == old(self).total_energy,
                self.center_of_mass == old(self).center_of_mass,
                old(self).wf(),
                vels@.len() == n,
                forall|k: int| 0 <= k < n ==> crate::model::vel_after_fits(s, g, dt as int, k),
                forall|k: int| 0 <= k < n ==> (#[trigger] vels@[k]).x
                    == crate::model::vel_after_x(s, g, dt as int, k),
                forall|k: int| 0 <= k < n ==> (#[trigger] vels@[k]).y
                    == crate::model::vel_after_y(s, g, dt as int, k),
                forall|k: int| i <= k < n ==> #[trigger] self.bodies@[k] == old(self).bodies@[k],
                forall|k: int| 0 <= k < i ==> #[trigger] self.bodies@[k]
                    == crate::model::body_after_gravity(s, g, dt as int, k),
                forall|k: int| 0 <= k < i ==> body_ok(#[trigger] self.bodies@[k]),
            decreases n - i,
        {
            let v = vels[i];
            proof {
                assert(crate::model::vel_after_fits(s, g, dt as int, i as int));
            }
            let b = &mut self.bodies[i];
            b.velocity = v;
            proof {
                assert(body_ok(self.bodies@[i as int]));
            }
            i += 1;
        }
        self.potential_energy = pe_acc as i64;
        proof {
            assert(forall|k: int| 0 <= k < self.bodies@.len() ==> #[trigger] self.bodies@[k].id
                == old(self).bodies@[k].id);
        }
        Ok(())
    }

    /// The per-frame motion pass: moves every body by its velocity over the
    /// frame, using the velocity the force pass already updated (the
    /// semi-implicit Euler order). A non-positive `dt` is a safe no-op.
    /// Fails with `NumericOverflow`, leaving the state unchanged, exactly
    /// when `dt` exceeds `DT_LIMIT` or some updated position leaves the
    /// representable range.
    pub fn motion(&mut self, dt: i64) -> (r: Result<(), SimError>)
        requires
            old(self).wf(),
        ensures
            final(self).wf(),
            dt <= 0 ==> r == Ok::<(), SimError>(()) && *final(self) == *old(self),
            dt > DT_LIMIT ==> r == Err::<(), SimError>(SimError::NumericOverflow) && *final(self)
                == *old(self),
            0 < dt <= DT_LIMIT ==> if crate::model::motion_ok(old(self).bodies_seq(), dt as int) {
                &&& r == Ok::<(), SimError>(())
                &&& final(self).bodies_seq().len() == old(self).bodies_seq().len()
                &&& forall|i: int| 0 <= i < old(self).bodies_seq().len()
                    ==> #[trigger] final(self).bodies_seq()[i] == crate::model::body_after_motion(
                    old(self).bodies_seq(), dt as int, i)
                &&& final(self).grav() == old(self).grav()
                &&& final(self).pe() == old(self).pe()
                &&& final(self).ke() == old(self).ke()
                &&& final(self).te() == old(self).te()
                &&& final(self).com() == old(self).com()
            } else {
                r == Err::<(), SimError>(SimError::NumericOverflow) && *final(self) == *old(self)
            },
    {
        if dt <= 0 {
            return Ok(());
        }
        if dt > DT_LIMIT {
            return Err(SimError::NumericOverflow);
        }
        let n = self.bodies.len();
        let ghost s = self.bodies@;
        let mut positions: Vec<Vec2> = Vec::new();
        let mut i: usize = 0;
        while i < n
            invariant
                self.wf(),
                *self == *old(self),
                0 < dt <= DT_LIMIT,
                i <= n,
                n == self.bodies@.len() <= MAX_BODIES,
                s == self.bodies@,
                positions@.len() == i,
                forall|k: int| 0 <= k < i ==> crate::model::pos_after_fits(s, dt as int, k),
                forall|k: int| 0 <= k < i ==> (#[trigger] positions@[k]).x
                    == crate::model::pos_after_x(s, dt as int, k),
                forall|k: int| 0 <= k < i ==> (#[trigger] positions@[k]).y
                    == crate::model::pos_after_y(s, dt as int, k),
            decreases n - i,
        {
            let vx = self.bodies[i].velocity.x as i128;
            let vy = self.bodies[i].velocity.y as i128;
            proof {
                assert(-10_000_000_000_000_000_000 <= vx * dt <= 10_000_000_000_000_000_000)
                    by (nonlinear_arith)
                    requires
                        -10_000_000_000 <= vx <= 10_000_000_000,
                        0 < dt <= 1_000_000_000,
                ;
                assert(-10_000_000_000_000_000_000 <= vy * dt <= 10_000_000_000_000_000_000)
                    by (nonlinear_arith)
                    requires
                        -10_000_000_000 <= vy <= 10_000_000_000,
                        0 < dt <= 1_000_000_000,
                ;
            }
            let npx = (self.bodies[i].position.x as i128) + div_trunc(vx * (dt as i128), 1_000_000);
            let npy = (self.bodies[i].position.y as i128) + div_trunc(vy * (dt as i128), 1_000_000);
            if npx < -(POS_LIMIT as i128) || npx > POS_LIMIT as i128 || npy < -(POS_LIMIT as i128)
                || npy > POS_LIMIT as i128 {
                proof {
                    assert(!crate::model::pos_after_fits(s, dt as int, i as int));
                    assert(!crate::model::motion_ok(s, dt as int));
                }
                return Err(SimError::NumericOverflow);
            }
            positions.push(Vec2 { x: npx as i64, y: npy as i64 });
            i += 1;
        }
        let mut i: usize = 0;
        while i < n
            invariant
                0 < dt <= DT_LIMIT,
                i <= n,
                n == self.bodies@.len(),
                self.bodies@.len() == old(self).bodies@.len(),
                s == old(self).bodies@,
                self.g == old(self).g,
                self.potential_energy == old(self).potential_energy,
                self.kinetic_energy == old(self).kinetic_energy,
                self.total_energy == old(self).total_energy,
                self.center_of_mass == old(self).center_of_mass,
                old(self).wf(),
                positions@.len() == n,
                forall|k: int| 0 <= k < n ==> crate::model::pos_after_fits(s, dt as int, k),
                forall|k: int| 0 <= k < n ==> (#[trigger] positions@[k]).x
                    == crate::model::pos_after_x(s, dt as int, k),
                forall|k: int| 0 <= k < n ==> (#[trigger] positions@[k]).y
                    == crate::model::pos_after_y(s, dt as int, k),
                forall|k: int| i <= k < n ==> #[trigger] self.bodies@[k] == old(self).bodies@[k],
                forall|k: int| 0 <= k < i ==> #[trigger] self.bodies@[k]
                    == crate::model::body_after_motion(s, dt as int, k),
                forall|k: int| 0 <= k < i ==> body_ok(#[trigger] self.bodies@[k]),
            decreases n - i,
        {
            let p = positions[i];
            proof {
                assert(crate::model::pos_after_fits(s, dt as int, i as int));
            }
            let b = &mut self.bodies[i];
            b.position = p;
            proof {
                assert(body_ok(self.bodies@[i as int]));
            }
            i += 1;
        }
        proof {
            assert(forall|k: int| 0 <= k < self.bodies@.len() ==> #[trigger] self.bodies@[k].id
                == old(self).bodies@[k].id);
        }
        Ok(())
    }

    /// The energy monitor: recomputes the kinetic energy from the current
    /// velocities and the total energy as kinetic plus the stored potential
    /// energy. A pure read-side diagnostic; it never feeds back into the
    /// dynamics. Fails with `NumericOverflow`, leaving the state unchanged,
    /// exactly when the total kinetic energy leaves the representable
    /// range.
    pub fn regulate_energy(&mut self) -> (r: Result<(), SimError>)
        requires
            old(self).wf(),
        ensures
            final(self).wf(),
            if crate::model::energy_ok(old(self).bodies_seq()) {
                &&& r == Ok::<(), SimError>(())
                &&& final(self).ke() == crate::model::ke_total(old(self).bodies_seq())
                &&& final(self).te() == crate::model::ke_total(old(self).bodies_seq())
                    + old(self).pe()
                &&& final(self).bodies_seq() == old(self).bodies_seq()
                &&& final(self).grav() == old(self).grav()
                &&& final(self).pe() == old(self).pe()
                &&& final(self).com() == old(self).com()
            } else {
                r == Err::<(), SimError>(SimError::NumericOverflow) && *final(self) == *old(self)
            },
    {
        let n = self.bodies.len();
        let ghost s = self.bodies@;
        let mut ke_acc: i128 = 0;
        let mut i: usize = 0;
        while i < n
            invariant
                self.wf(),
                *self == *old(self),
                i <= n,
                n == self.bodies@.len() <= MAX_BODIES,
                s == self.bodies@,
                ke_acc == crate::model::ke_upto(s, i as int),
                0 <= ke_acc <= (i as i128) * 10_000_000_000_000_000_000,
            decreases n - i,
        {
            let k = body_ke(&self.bodies[i]);
            ke_acc = ke_acc + k;
            i += 1;
        }
        if ke_acc > ENERGY_LIMIT as i128 {
            proof {
                assert(!crate::model::energy_ok(s));
            }
            return Err(SimError::NumericOverflow);
        }
        self.kinetic_energy = ke_acc as i64;
        self.total_energy = self.kinetic_energy + self.potential_energy;
        Ok(())
    }

    /// The center-of-mass monitor: recomputes the mass-weighted mean of the
    /// positions, or the origin when the total mass is zero. A pure
    /// read-side diagnostic; it always succeeds, because a weighted mean of
    /// in-range positions is itself in range.
    pub fn calculate_center_of_mass(&mut self)
        requires
            old(self).wf(),
        ensures
            final(self).wf(),
            final(self).com().x as int == crate::model::com_x(old(self).bodies_seq()),
            final(self).com().y as int == crate::model::com_y(old(self).bodies_seq()),
            final(self).bodies_seq() == old(self).bodies_seq(),
            final(self).grav() == old(self).grav(),
            final(self).pe() == old(self).pe(),
            final(self).ke() == old(self).ke(),
            final(self).te() == old(self).te(),
    {
        let n = self.bodies.len();
        let ghost s = self.bodies@;
        let mut msum: i128 = 0;
        let mut wx: i128 = 0;
        let mut wy: i128 = 0;
        let mut i: usize = 0;
        while i < n
            invariant
                self.wf(),
                *self == *old(self),
                i <= n,
                n == self.bodies@.len() <= MAX_BODIES,
                s == self.bodies@,
                msum == crate::model::mass_upto(s, i as int),
                wx == crate::model::weighted_x_upto(s, i as int),
                wy == crate::model::weighted_y_upto(s, i as int),
                0 <= msum <= (i as i128) * 100_000_000_000,
                -(i as i128) * 5_000_000_000_000_000_000_000 <= wx
                    <= (i as i128) * 5_000_000_000_000_000_000_000,
                -(i as i128) * 5_000_000_000_000_000_000_000 <= wy
                    <= (i as i128) * 5_000_000_000_000_000_000_000,
                -(msum * (POS_LIMIT as int)) <= wx <= msum * (POS_LIMIT as int),
                -(msum * (POS_LIMIT as int)) <= wy <= msum * (POS_LIMIT as int),
            decreases n - i,
        {
            let m = self.bodies[i].mass as i128;
            let px = self.bodies[i].position.x as i128;
            let py = self.bodies[i].position.y as i128;
            proof {
                assert(-(m * (POS_LIMIT as int)) <= m * px <= m * (POS_LIMIT as int)
                    && -5_000_000_000_000_000_000_000 <= m * px <= 5_000_000_000_000_000_000_000)
                    by (nonlinear_arith)
                    requires
                        0 <= m <= 100_000_000_000,
                        -(POS_LIMIT as int) <= px <= POS_LIMIT as int,
                        POS_LIMIT == 50_000_000_000,
                ;
                assert(-(m * (POS_LIMIT as int)) <= m * py <= m * (POS_LIMIT as int)
                    && -5_000_000_000_000_000_000_000 <= m * py <= 5_000_000_000_000_000_000_000)
                    by (nonlinear_arith)
                    requires
                        0 <= m <= 100_000_000_000,
                        -(POS_LIMIT as int) <= py <= POS_LIMIT as int,
                        POS_LIMIT == 50_000_000_000,
                ;
                assert((msum + m) * (POS_LIMIT as int) == msum * (POS_LIMIT as int) + m * (
                POS_LIMIT as int)) by (nonlinear_arith);
            }
            msum = msum + m;
            wx = wx + m * px;
            wy = wy + m * py;
            i += 1;
        }
        if msum > 0 {
            proof {
                lemma_divt_mag(wx as int, msum as int, POS_LIMIT as int);
                lemma_divt_mag(wy as int, msum as int, POS_LIMIT as int);
            }
            let cx = div_trunc(wx, msum);
            let cy = div_trunc(wy, msum);
            self.center_of_mass = Vec2 { x: cx as i64, y: cy as i64 };
        } else {
            self.center_of_mass = Vec2 { x: 0, y: 0 };
        }
    }

    /// The orbit initializer: finds the central body (the first body of
    /// strictly maximal mass; on an exact tie the earliest in setup order
    /// wins), brings it to rest, and gives every other body the speed and
    /// tangential direction of a circular two-body orbit around it. A body
    /// that sits exactly on the central body keeps its velocity. When every
    /// mass is zero there is no central body and nothing changes. Runs once
    /// after the mass deriver, not per frame. Fails with `NumericOverflow`,
    /// leaving the state unchanged, exactly when some assigned orbital
    /// speed leaves the representable range.
    pub fn recalculate_orbital_velocities(&mut self) -> (r: Result<(), SimError>)
        requires
            old(self).wf(),
        ensures
            final(self).wf(),
            ({
                let s = old(self).bodies_seq();
                let g = old(self).grav();
                let c = crate::model::central_index(s);
                if s.len() == 0 || s[c].mass == 0 {
                    r == Ok::<(), SimError>(()) && *final(self) == *old(self)
                } else if crate::model::orbits_ok(s, g) {
                    &&& r == Ok::<(), SimError>(())
                    &&& final(self).bodies_seq().len() == s.len()
                    &&& forall|i: int| 0 <= i < s.len() ==> #[trigger] final(self).bodies_seq()[i]
                        == crate::model::body_after_orbit_init(s, g, i)
                    &&& final(self).grav() == old(self).grav()
                    &&& final(self).pe() == old(self).pe()
                    &&& final(self).ke() == old(self).ke()
                    &&& final(self).te() == old(self).te()
                    &&& final(self).com() == old(self).com()
                } else {
                    r == Err::<(), SimError>(SimError::NumericOverflow) && *final(self) == *old(
                        self)
                }
            }),
    {
        let n = self.bodies.len();
        if n == 0 {
            return Ok(());
        }
        let ghost s = self.bodies@;
        let ghost g = self.grav();
        let mut ci: usize = 0;
        let mut k: usize = 1;
        while k < n
            invariant
                self.wf(),
                1 <= k <= n,
                n == self.bodies@.len(),
                s == self.bodies@,
                ci < k,
                ci as int == crate::model::central_upto(s, k as int),
            decreases n - k,
        {
            if self.bodies[k].mass > self.bodies[ci].mass {
                ci = k;
            }
            k += 1;
        }
        proof {
            assert(ci as int == crate::model::central_index(s));
        }
        if self.bodies[ci].mass == 0 {
            return Ok(());
        }
        let cpos = self.bodies[ci].position;
        let cmass = self.bodies[ci].mass;
        let mut vels: Vec<Vec2> = Vec::new();
        let mut i: usize = 0;
        while i < n
            invariant
                self.wf(),
                *self == *old(self),
                i <= n,
                n == self.bodies@.len() <= MAX_BODIES,
                s == self.bodies@,
                g == self.grav(),
                ci < n,
                ci as int == crate::model::central_index(s),
                cpos == s[ci as int].position,
                cmass == s[ci as int].mass,
                cmass != 0,
                vels@.len() == i,
                forall|k2: int| 0 <= k2 < i && k2 != ci ==> crate::model::orbit_speed_fits(
                    s, g, ci as int, k2),
                forall|k2: int| 0 <= k2 < i ==> #[trigger] vels@[k2]
                    == crate::model::body_after_orbit_init(s, g, k2).velocity,
                forall|k2: int| 0 <= k2 < i ==> -VEL_LIMIT <= (#[trigger] vels@[k2]).x <= VEL_LIMIT
                    && -VEL_LIMIT <= vels@[k2].y <= VEL_LIMIT,
            decreases n - i,
        {
            if i == ci {
                vels.push(Vec2 { x: 0, y: 0 });
            } else {
                proof {
                    crate::model::lemma_accel_bounds(g, s[ci as int], s[i as int]);
                }
                let dx: i128 = (self.bodies[i].position.x as i128) - (cpos.x as i128);
                let dy: i128 = (self.bodies[i].position.y as i128) - (cpos.y as i128);
                proof {
                    assert(0 <= dx * dx <= 10_000_000_000_000_000_000_000) by (nonlinear_arith)
                        requires
                            -100_000_000_000 <= dx <= 100_000_000_000,
                    ;
                    assert(0 <= dy * dy <= 10_000_000_000_000_000_000_000) by (nonlinear_arith)
                        requires
                            -100_000_000_000 <= dy <= 100_000_000_000,
                    ;
                }
                let q0: i128 = dx * dx + dy * dy;
                if q0 == 0 {
                    vels.push(self.bodies[i].velocity);
                } else {
                    proof {
                        crate::model::lemma_orbit_bounds(g, s[ci as int], s[i as int]);
                    }
                    let d: i128 = crate::num::isqrt(q0 as u128) as i128;
                    proof {
                        assert(0 <= (cmass as int) * 1_000_000_000 <= 100_000_000_000_000_000_000)
                            by (nonlinear_arith)
                            requires
                                0 <= cmass <= 100_000_000_000,
                        ;
                        assert(0 <= (self.g as int) * (cmass as int)
                            <= 100_000_000_000_000_000_000) by (nonlinear_arith)
                            requires
                                0 <= self.g <= 1_000_000_000,
                                0 <= cmass <= 100_000_000_000,
                        ;
                    }
                    let gm: i128 = (self.g as i128) * (cmass as i128);
                    let num: i128 = gm * 1_000_000;
                    proof {
                        assert(num == g * (cmass as int) * (UNIT as int)) by (nonlinear_arith)
                            requires
                                UNIT == 1_000_000,
                                gm == g * (cmass as int),
                                num == gm * 1_000_000,
                        ;
                    }
                    let t = div_trunc(num, d);
                    proof {
                        crate::num::lemma_divt_nonneg(num as int, d as int);
                    }
                    let speed: i128 = crate::num::isqrt(t as u128) as i128;
                    if speed > VEL_LIMIT as i128 {
                        proof {
                            assert(!crate::model::orbit_speed_fits(s, g, ci as int, i as int));
                            assert(!crate::model::orbits_ok(s, g));
                        }
                        return Err(SimError::NumericOverflow);
                    }
                    proof {
                        assert(0 <= d * speed <= 1_500_000_000_000_000_000_000) by (nonlinear_arith)
                            requires
                                0 <= d <= 150_000_000_000,
                                0 <= speed <= 10_000_000_000,
                        ;
                        assert(-(d * speed) <= -dy * speed <= d * speed) by (nonlinear_arith)
                            requires
                                -d <= dy <= d,
                                0 <= speed,
                        ;
                        assert(-(d * speed) <= dx * speed <= d * speed) by (nonlinear_arith)
                            requires
                                -d <= dx <= d,
                                0 <= speed,
                        ;
                        crate::num::lemma_divt_mag(-dy as int * speed as int, d as int,
                            speed as int);
                        crate::num::lemma_divt_mag(dx as int * speed as int, d as int,
                            speed as int);
                    }
                    let vx = div_trunc(-dy * speed, d);
                    let vy = div_trunc(dx * speed, d);
                    vels.push(Vec2 { x: vx as i64, y: vy as i64 });
                }
            }
            i += 1;
        }
        proof {
            assert(crate::model::orbits_ok(s, g));
        }
        let mut i: usize = 0;
        while i < n
            invariant
                i <= n,
                n == self.bodies@.len(),
                self.bodies@.len() == old(self).bodies@.len(),
                s == old(self).bodies@,
                g == old(self).grav(),
                self.g == old(self).g,
                self.potential_energy == old(self).potential_energy,
                self.kinetic_energy == old(self).kinetic_energy,
                self.total_energy == old(self).total_energy,
                self.center_of_mass == old(self).center_of_mass,
                old(self).wf(),
                vels@.len() == n,
                forall|k2: int| 0 <= k2 < n ==> #[trigger] vels@[k2]
                    == crate::model::body_after_orbit_init(s, g, k2).velocity,
                forall|k2: int| 0 <= k2 < n ==> -VEL_LIMIT <= (#[trigger] vels@[k2]).x <= VEL_LIMIT
                    && -VEL_LIMIT <= vels@[k2].y <= VEL_LIMIT,
                forall|k2: int| i <= k2 < n ==> #[trigger] self.bodies@[k2] == old(self).bodies@[k2],
                forall|k2: int| 0 <= k2 < i ==> #[trigger] self.bodies@[k2]
                    == crate::model::body_after_orbit_init(s, g, k2),
                forall|k2: int| 0 <= k2 < i ==> body_ok(#[trigger] self.bodies@[k2]),
            decreases n - i,
        {
            let v = vels[i];
            let b = &mut self.bodies[i];
            b.velocity = v;
            proof {
                assert(body_ok(self.bodies@[i as int]));
            }
            i += 1;
        }
        proof {
            assert(forall|k2: int| 0 <= k2 < self.bodies@.len() ==> #[trigger] self.bodies@[k2].id
                == old(self).bodies@[k2].id);
        }
        Ok(())
    }

    /// The craft deriver: gives every body a craft count proportional to
    /// its share of the largest surface area, rounded half away from zero
    /// and clamped to `0..=CRAFTS_MAX`. When the largest surface area is
    /// not positive (no bodies, or all of negligible size) nothing changes.
    pub fn assign_crafts(&mut self)
        requires
            old(self).wf(),
        ensures
            final(self).wf(),
            ({
                let s = old(self).bodies_seq();
                if crate::model::max_surface(s) <= 0 {
                    *final(self) == *old(self)
                } else {
                    &&& final(self).bodies_seq().len() == s.len()
                    &&& forall|i: int| 0 <= i < s.len() ==> #[trigger] final(self).bodies_seq()[i]
                        == crate::model::body_after_crafts(s, i)
                    &&& final(self).grav() == old(self).grav()
                    &&& final(self).pe() == old(self).pe()
                    &&& final(self).ke() == old(self).ke()
                    &&& final(self).te() == old(self).te()
                    &&& final(self).com() == old(self).com()
                }
            }),
    {
        let n = self.bodies.len();
        let ghost s = self.bodies@;
        let mut areas: Vec<i64> = Vec::new();
        let mut max_sa: i64 = 0;
        let mut i: usize = 0;
        while i < n
            invariant
                self.wf(),
                *self == *old(self),
                i <= n,
                n == self.bodies@.len() <= MAX_BODIES,
                s == self.bodies@,
                areas@.len() == i,
                forall|k: int| 0 <= k < i ==> #[trigger] areas@[k] as int
                    == crate::model::surface_area(s[k].radius as int),
                forall|k: int| 0 <= k < i ==> 0 <= #[trigger] areas@[k] <= 130_000_000_000,
                max_sa as int == crate::model::max_surface_upto(s, i as int),
                0 <= max_sa <= 130_000_000_000,
            decreases n - i,
        {
            let a = surface_of(self.bodies[i].radius);
            if a > max_sa {
                max_sa = a;
            }
            areas.push(a);
            i += 1;
        }
        if max_sa <= 0 {
            return ;
        }
        let mut i: usize = 0;
        while i < n
            invariant
                0 < max_sa <= 130_000_000_000,
                max_sa as int == crate::model::max_surface(s),
                i <= n,
                n == self.bodies@.len(),
                self.bodies@.len() == old(self).bodies@.len(),
                s == old(self).bodies@,
                self.g == old(self).g,
                self.potential_energy == old(self).potential_energy,
                self.kinetic_energy == old(self).kinetic_energy,
                self.total_energy == old(self).total_energy,
                self.center_of_mass == old(self).center_of_mass,
                old(self).wf(),
                areas@.len() == n,
                forall|k: int| 0 <= k < n ==> #[trigger] areas@[k] as int
                    == crate::model::surface_area(s[k].radius as int),
                forall|k: int| 0 <= k < n ==> 0 <= #[trigger] areas@[k] <= 130_000_000_000,
                forall|k: int| i <= k < n ==> #[trigger] self.bodies@[k] == old(self).bodies@[k],
                forall|k: int| 0 <= k < i ==> #[trigger] self.bodies@[k]
                    == crate::model::body_after_crafts(s, k),
                forall|k: int| 0 <= k < i ==> body_ok(#[trigger] self.bodies@[k]),
            decreases n - i,
        {
            let c = crafts_of(areas[i], max_sa);
            let b = &mut self.bodies[i];
            b.crafts = c;
            proof {
                assert(body_ok(self.bodies@[i as int]));
            }
            i += 1;
        }
        proof {
            assert(forall|k: int| 0 <= k < self.bodies@.len() ==> #[trigger] self.bodies@[k].id
                == old(self).bodies@[k].id);
        }
    }

    /// One full frame, in the fixed order the design requires: forces and
    /// the velocity update, then the position update from the already
    /// updated velocities, then the two read-side monitors. The whole step
    /// works from the `dt` handed in once by the host; a non-positive `dt`
    /// moves nothing, and the monitors still run. On a `NumericOverflow`
    /// the failing pass leaves its part of the state unchanged and the
    /// frame stops there.
    pub fn step(&mut self, dt: i64) -> (r: Result<(), SimError>)
        requires
            old(self).wf(),
        ensures
            final(self).wf(),
            ({
                let s0 = old(self).bodies_seq();
                let g = old(self).grav();
                let d = dt as int;
                let s1 = if dt <= 0 {
                    s0
                } else {
                    crate::model::bodies_after_gravity(s0, g, d)
                };
                let s2 = if dt <= 0 {
                    s1
                } else {
                    crate::model::bodies_after_motion(s1, d)
                };
                let pe1 = if dt <= 0 {
                    old(self).pe()
                } else {
                    crate::model::pe_total(s0, g)
                };
                if dt > DT_LIMIT {
                    r == Err::<(), SimError>(SimError::NumericOverflow) && *final(self) == *old(
                        self)
                } else if 0 < dt && !crate::model::gravity_ok(s0, g, d) {
                    r == Err::<(), SimError>(SimError::NumericOverflow) && *final(self) == *old(
                        self)
                } else if 0 < dt && !crate::model::motion_ok(s1, d) {
                    &&& r == Err::<(), SimError>(SimError::NumericOverflow)
                    &&& final(self).bodies_seq() == s1
                    &&& final(self).pe() == pe1
                    &&& final(self).grav() == g
                    &&& final(self).ke() == old(self).ke()
                    &&& final(self).te() == old(self).te()
                    &&& final(self).com() == old(self).com()
                } else if !crate::model::energy_ok(s2) {
                    &&& r == Err::<(), SimError>(SimError::NumericOverflow)
                    &&& final(self).bodies_seq() == s2
                    &&& final(self).pe() == pe1
                    &&& final(self).grav() == g
                    &&& final(self).ke() == old(self).ke()
                    &&& final(self).te() == old(self).te()
                    &&& final(self).com() == old(self).com()
                } else {
                    &&& r == Ok::<(), SimError>(())
                    &&& final(self).bodies_seq() == s2
                    &&& final(self).pe() == pe1
                    &&& final(self).grav() == g
                    &&& final(self).ke() == crate::model::ke_total(s2)
                    &&& final(self).te() == crate::model::ke_total(s2) + pe1
                    &&& final(self).com().x as int == crate::model::com_x(s2)
                    &&& final(self).com().y as int == crate::model::com_y(s2)
                }
            }),
    {
        let ghost s0 = self.bodies@;
        let ghost g = self.grav();
        match self.gravity(dt) {
            Ok(_) => {},
            Err(e) => {
                return Err(e);
            },
        }
        proof {
            if 0 < dt <= DT_LIMIT {
                assert(self.bodies@ =~= crate::model::bodies_after_gravity(s0, g, dt as int));
            }
        }
        let ghost s1 = self.bodies@;
        match self.motion(dt) {
            Ok(_) => {},
            Err(e) => {
                return Err(e);
            },
        }
        proof {
            if 0 < dt <= DT_LIMIT {
                assert(self.bodies@ =~= crate::model::bodies_after_motion(s1, dt as int));
            }
        }
        match self.regulate_energy() {
            Ok(_) => {},
            Err(e) => {
                return Err(e);
            },
        }
        self.calculate_center_of_mass();
        Ok(())
    }

    /// The one permitted presentation-side mutation: one more craft on body
    /// `i`, clamped at `CRAFTS_MAX`.
    pub fn increment_crafts(&mut self, i: usize)
        requires
            old(self).wf(),
            i < old(self).bodies_seq().len(),
        ensures
            final(self).wf(),
            final(self).bodies_seq().len() == old(self).bodies_seq().len(),
            final(self).bodies_seq()[i as int].crafts == if old(self).bodies_seq()[
                i as int].crafts < CRAFTS_MAX {
                old(self).bodies_seq()[i as int].crafts + 1
            } else {
                old(self).bodies_seq()[i as int].crafts as int
            },
            final(self).bodies_seq()[i as int] == (Body {
                crafts: final(self).bodies_seq()[i as int].crafts,
                ..old(self).bodies_seq()[i as int]
            }),
            forall|k: int| 0 <= k < old(self).bodies_seq().len() && k != i
                ==> #[trigger] final(self).bodies_seq()[k] == old(self).bodies_seq()[k],
            final(self).grav() == old(self).grav(),
            final(self).pe() == old(self).pe(),
            final(self).ke() == old(self).ke(),
            final(self).te() == old(self).te(),
            final(self).com() == old(self).com(),
    {
        let b = &mut self.bodies[i];
        if b.crafts < CRAFTS_MAX {
            b.crafts = b.crafts + 1;
        }
    }

    /// The other permitted presentation-side mutation: one craft fewer on
    /// body `i`, clamped at zero.
    pub fn decrement_crafts(&mut self, i: usize)
        requires
            old(self).wf(),
            i < old(self).bodies_seq().len(),
        ensures
            final(self).wf(),
            final(self).bodies_seq().len() == old(self).bodies_seq().len(),
            final(self).bodies_seq()[i as int].crafts == if old(self).bodies_seq()[
                i as int].crafts > 0 {
                old(self).bodies_seq()[i as int].crafts - 1
            } else {
                0
            },
            final(self).bodies_seq()[i as int] == (Body {
                crafts: final(self).bodies_seq()[i as int].crafts,
                ..old(self).bodies_seq()[i as int]
            }),
            forall|k: int| 0 <= k < old(self).bodies_seq().len() && k != i
                ==> #[trigger] final(self).bodies_seq()[k] == old(self).bodies_seq()[k],
            final(self).grav() == old(self).grav(),
            final(self).pe() == old(self).pe(),
            final(self).ke() == old(self).ke(),
            final(self).te() == old(self).te(),
            final(self).com() == old(self).com(),
    {
        let b = &mut self.bodies[i];
        if b.crafts > 0 {
            b.crafts = b.crafts - 1;
        }
    }

    /// How many bodies the simulation holds.
    pub fn body_count(&self) -> (n: usize)
        ensures
            n == self.bodies_seq().len(),
    {
        self.bodies.len()
    }

    /// Read-only access to body `i` for the presentation side.
    pub fn body(&self, i: usize) -> (b: &Body)
        requires
            i < self.bodies_seq().len(),
        ensures
            *b == self.bodies_seq()[i as int],
    {
        &self.bodies[i]
    }

    /// The gravitational constant of this instance.
    pub fn gravitational_constant(&self) -> (g: i64)
        ensures
            g as int == self.grav(),
    {
        self.g
    }

    /// The stored potential energy diagnostic.
    pub fn potential_energy(&self) -> (e: i64)
        ensures
            e as int == self.pe(),
    {
        self.potential_energy
    }

    /// The stored kinetic energy diagnostic.
    pub fn kinetic_energy(&self) -> (e: i64)
        ensures
            e as int == self.ke(),
    {
        self.kinetic_energy
    }

    /// The stored total energy diagnostic.
    pub fn total_energy(&self) -> (e: i64)
        ensures
            e as int == self.te(),
    {
        self.total_energy
    }

    /// The stored center-of-mass diagnostic.
    pub fn center_of_mass(&self) -> (c: Vec2)
        ensures
            c == self.com(),
    {
        self.center_of_mass
    }
}

/// The floored squared separation and the floored separation of a pair, as
/// executable fixed-point arithmetic.
fn pair_distance(bi: &Body, bj: &Body) -> (r: (i128, i128))
    requires
        body_ok(*bi),
        body_ok(*bj),
    ensures
        r.0 == crate::model::floored_dist_sq(*bi, *bj),
        r.1 == crate::model::dist(*bi, *bj),
{
    let dx: i128 = (bj.position.x as i128) - (bi.position.x as i128);
    let dy: i128 = (bj.position.y as i128) - (bi.position.y as i128);
    proof {
        assert(0 <= dx * dx <= 10_000_000_000_000_000_000_000) by (nonlinear_arith)
            requires
                -100_000_000_000 <= dx <= 100_000_000_000,
        ;
        assert(0 <= dy * dy <= 10_000_000_000_000_000_000_000) by (nonlinear_arith)
            requires
                -100_000_000_000 <= dy <= 100_000_000_000,
        ;
    }
    let raw: i128 = dx * dx + dy * dy;
    let rsum: i128 = (bi.radius as i128) + (bj.radius as i128);
    proof {
        assert(4 <= rsum * rsum <= 40_000_000_000_000_000) by (nonlinear_arith)
            requires
                2 <= rsum <= 200_000_000,
        ;
    }
    let floor_sq: i128 = rsum * rsum;
    let q: i128 = if raw > floor_sq {
        raw
    } else {
        floor_sq
    };
    let d = crate::num::isqrt(q as u128);
    (q, d as i128)
}

/// One pairwise acceleration contribution on `bi` from `bj`, as executable
/// fixed-point arithmetic: the exact quotients of the model.
fn pair_accel(g: i64, bi: &Body, bj: &Body) -> (a: (i128, i128))
    requires
        body_ok(*bi),
        body_ok(*bj),
        0 <= g <= G_LIMIT,
    ensures
        a.0 == crate::model::accel_x(g as int, *bi, *bj),
        a.1 == crate::model::accel_y(g as int, *bi, *bj),
        -crate::model::ACCEL_LIMIT <= a.0 <= crate::model::ACCEL_LIMIT,
        -crate::model::ACCEL_LIMIT <= a.1 <= crate::model::ACCEL_LIMIT,
{
    proof {
        crate::model::lemma_accel_bounds(g as int, *bi, *bj);
    }
    let dx: i128 = (bj.position.x as i128) - (bi.position.x as i128);
    let dy: i128 = (bj.position.y as i128) - (bi.position.y as i128);
    proof {
        assert(0 <= dx * dx <= 10_000_000_000_000_000_000_000) by (nonlinear_arith)
            requires
                -100_000_000_000 <= dx <= 100_000_000_000,
        ;
        assert(0 <= dy * dy <= 10_000_000_000_000_000_000_000) by (nonlinear_arith)
            requires
                -100_000_000_000 <= dy <= 100_000_000_000,
        ;
    }
    let raw: i128 = dx * dx + dy * dy;
    if raw == 0 {
        return (0, 0);
    }
    let rsum: i128 = (bi.radius as i128) + (bj.radius as i128);
    proof {
        assert(4 <= rsum * rsum <= 40_000_000_000_000_000) by (nonlinear_arith)
            requires
                2 <= rsum <= 200_000_000,
        ;
    }
    let floor_sq: i128 = rsum * rsum;
    let q: i128 = if raw > floor_sq {
        raw
    } else {
        floor_sq
    };
    let rd: i128 = crate::num::isqrt(raw as u128) as i128;
    proof {
        assert(0 <= (g as int) * (bj.mass as int) <= 100_000_000_000_000_000_000)
            by (nonlinear_arith)
            requires
                0 <= g <= 1_000_000_000,
                0 <= bj.mass <= 100_000_000_000,
        ;
    }
    let gm: i128 = (g as i128) * (bj.mass as i128);
    proof {
        assert(-20_000_000_000_000_000_000_000_000_000_000 <= gm * dx
            <= 20_000_000_000_000_000_000_000_000_000_000) by (nonlinear_arith)
            requires
                0 <= gm <= 100_000_000_000_000_000_000,
                -200_000_000_000 <= dx <= 200_000_000_000,
        ;
        assert(-20_000_000_000_000_000_000_000_000_000_000 <= gm * dy
            <= 20_000_000_000_000_000_000_000_000_000_000) by (nonlinear_arith)
            requires
                0 <= gm <= 100_000_000_000_000_000_000,
                -200_000_000_000 <= dy <= 200_000_000_000,
        ;
    }
    let num_x: i128 = gm * dx * 1_000_000;
    let num_y: i128 = gm * dy * 1_000_000;
    proof {
        assert(num_x == (g as int) * (bj.mass as int) * dx * (UNIT as int)) by (nonlinear_arith)
            requires
                UNIT == 1_000_000,
                gm == (g as int) * (bj.mass as int),
                num_x == gm * dx * 1_000_000,
        ;
        assert(num_y == (g as int) * (bj.mass as int) * dy * (UNIT as int)) by (nonlinear_arith)
            requires
                UNIT == 1_000_000,
                gm == (g as int) * (bj.mass as int),
                num_y == gm * dy * 1_000_000,
        ;
    }
    let den: i128 = q * rd;
    let ax = div_trunc(num_x, den);
    let ay = div_trunc(num_y, den);
    (ax, ay)
}

/// One unordered pair's potential energy, as executable fixed-point
/// arithmetic: never positive.
fn pair_pe(g: i64, bi: &Body, bj: &Body) -> (p: i128)
    requires
        body_ok(*bi),
        body_ok(*bj),
        0 <= g <= G_LIMIT,
    ensures
        p == crate::model::pe_pair(g as int, *bi, *bj),
        p <= 0,
{
    proof {
        crate::model::lemma_accel_bounds(g as int, *bi, *bj);
    }
    let (_q, d) = pair_distance(bi, bj);
    proof {
        assert(0 <= (g as int) * (bi.mass as int) <= 100_000_000_000_000_000_000)
            by (nonlinear_arith)
            requires
                0 <= g <= 1_000_000_000,
                0 <= bi.mass <= 100_000_000_000,
        ;
    }
    let gm: i128 = (g as i128) * (bi.mass as i128);
    proof {
        assert(0 <= gm * bj.mass <= 10_000_000_000_000_000_000_000_000_000_000)
            by (nonlinear_arith)
            requires
                0 <= gm <= 100_000_000_000_000_000_000,
                0 <= bj.mass <= 100_000_000_000,
        ;
    }
    let gmm: i128 = gm * (bj.mass as i128);
    let den: i128 = d * 1_000_000;
    proof {
        assert(gmm == (g as int) * (bi.mass as int) * (bj.mass as int)) by (nonlinear_arith)
            requires
                gm == (g as int) * (bi.mass as int),
                gmm == gm * (bj.mass as int),
        ;
        assert(den == (UNIT as int) * (d as int)) by (nonlinear_arith)
            requires
                UNIT == 1_000_000,
                den == (d as int) * 1_000_000,
        ;
        crate::num::lemma_divt_nonneg(gmm as int, den as int);
    }
    let t = div_trunc(gmm, den);
    -t
}

/// Surface area `4 * pi * r^2` as executable fixed-point arithmetic.
fn surface_of(r: i64) -> (a: i64)
    requires
        1 <= r <= RADIUS_LIMIT,
    ensures
        a as int == crate::model::surface_area(r as int),
        0 <= a <= 130_000_000_000,
{
    proof {
        assert(0 <= (r as int) * (r as int) <= 10_000_000_000_000_000) by (nonlinear_arith)
            requires
                0 < r <= 100_000_000,
        ;
    }
    let rr: i128 = (r as i128) * (r as i128);
    let num: i128 = 12_566_372 * rr;
    let den: i128 = 1_000_000_000_000;
    proof {
        assert(num == 4 * (PI_UNITS as int) * (r as int) * (r as int)) by (nonlinear_arith)
            requires
                PI_UNITS == 3_141_593,
                rr == (r as int) * (r as int),
                num == 12_566_372 * rr,
        ;
        assert(den == (UNIT as int) * (UNIT as int)) by (nonlinear_arith)
            requires
                UNIT == 1_000_000,
                den == 1_000_000_000_000i128,
        ;
        lemma_divt_mag(num as int, den as int, 130_000_000_000);
        crate::num::lemma_divt_nonneg(num as int, den as int);
    }
    let q = div_trunc(num, den);
    q as i64
}

/// The craft-count rule as executable arithmetic: the share of the largest
/// surface area scaled to `0..=CRAFTS_MAX`, rounded half away from zero,
/// then clamped.
fn crafts_of(area: i64, max_area: i64) -> (c: u32)
    requires
        0 <= area <= 130_000_000_000,
        0 < max_area <= 130_000_000_000,
    ensures
        c as int == crate::model::crafts_value(area as int, max_area as int),
        c <= CRAFTS_MAX,
{
    let num: i128 = 20 * (area as i128) + (max_area as i128);
    let den: i128 = 2 * (max_area as i128);
    proof {
        assert(num == 2 * (CRAFTS_MAX as int) * (area as int) + (max_area as int))
            by (nonlinear_arith)
            requires
                CRAFTS_MAX == 10,
                num == 20 * (area as int) + (max_area as int),
        ;
        crate::num::lemma_divt_nonneg(num as int, den as int);
    }
    let q = div_trunc(num, den);
    if q > 10 {
        10
    } else {
        q as u32
    }
}

/// One body's kinetic energy, as executable fixed-point arithmetic.
fn body_ke(b: &Body) -> (k: i128)
    requires
        body_ok(*b),
    ensures
        k == crate::model::ke_body(*b),
        0 <= k <= 10_000_000_000_000_000_000,
{
    let vx = b.velocity.x as i128;
    let vy = b.velocity.y as i128;
    proof {
        assert(0 <= vx * vx <= 100_000_000_000_000_000_000) by (nonlinear_arith)
            requires
                -10_000_000_000 <= vx <= 10_000_000_000,
        ;
        assert(0 <= vy * vy <= 100_000_000_000_000_000_000) by (nonlinear_arith)
            requires
                -10_000_000_000 <= vy <= 10_000_000_000,
        ;
    }
    let sq: i128 = vx * vx + vy * vy;
    proof {
        assert(0 <= (b.mass as int) * sq <= 20_000_000_000_000_000_000_000_000_000_000)
            by (nonlinear_arith)
            requires
                0 <= b.mass <= 100_000_000_000,
                0 <= sq <= 200_000_000_000_000_000_000,
        ;
    }
    let num: i128 = (b.mass as i128) * sq;
    let den: i128 = 2_000_000_000_000;
    proof {
        assert(2 * (UNIT as int) * (UNIT as int) == 2_000_000_000_000) by (nonlinear_arith)
            requires
                UNIT == 1_000_000,
        ;
        lemma_divt_mag(num as int, den as int, 10_000_000_000_000_000_000);
        crate::num::lemma_divt_nonneg(num as int, den as int);
    }
    div_trunc(num, den)
}

/// The density law as executable fixed-point arithmetic.
fn mass_from_radius(r: i64) -> (m: i64)
    requires
        1 <= r <= RADIUS_LIMIT,
    ensures
        m as int == mass_of_radius(r as int),
        0 <= m <= MASS_LIMIT,
{
    let k: i128 = 251_327_440_000;
    let t1: i128 = k * (r as i128);
    proof {
        assert(0 <= t1 * r <= 2_513_274_400_000_000_000_000_000_000i128) by (nonlinear_arith)
            requires
                0 < r <= 100_000_000,
                0 <= t1 <= 25_132_744_000_000_000_000i128,
        ;
    }
    let t2: i128 = t1 * (r as i128);
    proof {
        assert(0 <= t2 * r <= 251_327_440_000_000_000_000_000_000_000_000_000i128)
            by (nonlinear_arith)
            requires
                0 < r <= 100_000_000,
                0 <= t2 <= 2_513_274_400_000_000_000_000_000_000i128,
        ;
    }
    let num: i128 = t2 * (r as i128);
    let den: i128 = 3_000_000_000_000_000_000_000_000;
    let q = div_trunc(num, den);
    proof {
        assert(num as int == 4 * (PI_UNITS as int) * (DENSITY_UNITS as int) * (r as int) * (
        r as int) * (r as int)) by (nonlinear_arith)
            requires
                PI_UNITS == 3_141_593,
                DENSITY_UNITS == 20_000,
                k == 251_327_440_000,
                t1 == k * (r as int),
                t2 == t1 * (r as int),
                num == t2 * (r as int),
        ;
        assert(den as int == 3 * (UNIT as int) * (UNIT as int) * (UNIT as int) * (UNIT as int))
            by (nonlinear_arith)
            requires
                UNIT == 1_000_000,
                den == 3_000_000_000_000_000_000_000_000i128,
        ;
        assert((den as int) * (MASS_LIMIT as int)
            == 300_000_000_000_000_000_000_000_000_000_000_000) by (nonlinear_arith)
            requires
                MASS_LIMIT == 100_000_000_000,
                den == 3_000_000_000_000_000_000_000_000i128,
        ;
        lemma_divt_mag(num as int, den as int, MASS_LIMIT as int);
    }
    q as i64
}

} // verus!
