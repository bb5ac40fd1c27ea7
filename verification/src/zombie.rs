//! Enemies: patrols along a cyclic route of waypoints, health and damage.

use vstd::prelude::*;

use crate::utils::{
    distance, lemma_scaled_whole, lemma_scaled_within, offset_back, offset_by, saturated, scale, scaled, travel, Heading,
    Vec2, ONE,
};

verus! {

/// Speed of an enemy in world units per second.
pub const ZOMBIE_SPEED: i64 = 150;

/// An enemy that walks from waypoint to waypoint.
#[derive(Debug)]
pub struct Zombie {
    /// Identity under which the host knows this enemy.
    pub id: u64,
    /// Position in the world.
    pub pos: Vec2,
    /// The route: waypoints that are visited in order, the first again after the last.
    pub loc: Vec<Vec2>,
    /// Index of the waypoint that the enemy is heading to.
    pub cur_loc: usize,
    /// Full extent of the rectangle tested against projectiles, centred on `pos`.
    pub hit_box: Vec2,
    /// Remaining health; the enemy is removed once it is zero or less.
    pub health: i32,
    /// Direction from `pos` to the current waypoint, measured from the
    /// positive x axis.  The host sets it before every move.
    pub bearing: Heading,
}

/// What an enemy is, with its route as a sequence.
pub struct ZombieView {
    pub id: u64,
    pub pos: Vec2,
    pub loc: Seq<Vec2>,
    pub cur_loc: nat,
    pub hit_box: Vec2,
    pub health: i32,
    pub bearing: Heading,
}

impl View for Zombie {
    type V = ZombieView;

    open spec fn view(&self) -> ZombieView {
        ZombieView {
            id: self.id,
            pos: self.pos,
            loc: self.loc@,
            cur_loc: self.cur_loc as nat,
            hit_box: self.hit_box,
            health: self.health,
            bearing: self.bearing,
        }
    }
}

impl Clone for Zombie {
    fn clone(&self) -> (r: Zombie)
        ensures
            r@ == self@,
    {
        let mut route: Vec<Vec2> = Vec::new();
        let mut i: usize = 0;
        while i < self.loc.len()
            invariant
                i <= self.loc.len(),
                route@ == self.loc@.take(i as int),
            decreases self.loc.len() - i,
        {
            route.push(self.loc[i]);
            i += 1;
        }
        assert(self.loc@.take(i as int) =~= self.loc@);
        Zombie {
            id: self.id,
            pos: self.pos,
            loc: route,
            cur_loc: self.cur_loc,
            hit_box: self.hit_box,
            health: self.health,
            bearing: self.bearing,
        }
    }
}

/// The views of a list of enemies, in their order.
pub open spec fn views(zombies: Seq<Zombie>) -> Seq<ZombieView> {
    zombies.map_values(|z: Zombie| z@)
}

/// Every one of `zombies` after `dt` microseconds of patrol.
pub open spec fn marched(zombies: Seq<ZombieView>, dt: u32) -> Seq<ZombieView> {
    zombies.map_values(|z: ZombieView| z.advanced(dt))
}

/// Whether a coordinate at `pos` reaches `target` within one move of length
/// `step`: it is there already, or no further away than `step`.
pub open spec fn reaches(pos: int, target: int, step: int) -> bool {
    pos == target || (if target >= pos {
        target - pos
    } else {
        pos - target
    }) <= step
}

/// `health` after losing `amount`, kept inside the range of `i32`.
pub open spec fn health_less(health: int, amount: int) -> int {
    if health - amount < i32::MIN {
        i32::MIN as int
    } else if health - amount > i32::MAX {
        i32::MAX as int
    } else {
        health - amount
    }
}

impl ZombieView {
    /// The route is not empty and the index points into it.
    pub open spec fn well_formed(self) -> bool {
        self.cur_loc < self.loc.len()
    }

    /// The index of the current waypoint, taken modulo the length of the route.
    pub open spec fn target_index(self) -> int {
        self.cur_loc as int % self.loc.len() as int
    }

    /// The waypoint that the enemy is heading to.
    pub open spec fn target(self) -> Vec2 {
        self.loc[self.target_index()]
    }

    /// The vector from the position to the current waypoint.
    pub open spec fn direction(self) -> Vec2 {
        Vec2 {
            x: saturated(self.target().x - self.pos.x) as i64,
            y: saturated(self.target().y - self.pos.y) as i64,
        }
    }

    /// The heading along which the enemy moves and is drawn: its bearing,
    /// normalized, and a quarter turn further.
    pub open spec fn facing(self) -> Heading {
        self.bearing.normalized().quarter_ahead()
    }

    /// The index after `index` on this route, the first after the last.
    pub open spec fn following(self, index: int) -> int {
        if index + 1 >= self.loc.len() {
            0
        } else {
            index + 1
        }
    }

    /// This enemy after `dt` microseconds of patrol.
    ///
    /// Each axis is treated by itself.  A coordinate that reaches the
    /// waypoint's within this move is set to it exactly; otherwise x moves by
    /// the sine of the facing and y against its cosine.  When both
    /// coordinates have arrived the enemy turns to the next waypoint.  An
    /// enemy without a route stays as it is.
    pub open spec fn advanced(self, dt: u32) -> ZombieView {
        if self.loc.len() == 0 {
            self
        } else {
            let step = saturated(distance(ZOMBIE_SPEED as int, dt as int));
            let target = self.target();
            let facing = self.facing();
            let x_met = reaches(self.pos.x as int, target.x as int, step);
            let y_met = reaches(self.pos.y as int, target.y as int, step);
            ZombieView {
                pos: Vec2 {
                    x: if x_met {
                        target.x
                    } else {
                        saturated(self.pos.x + saturated(scaled(facing.sin as int, step))) as i64
                    },
                    y: if y_met {
                        target.y
                    } else {
                        saturated(self.pos.y - saturated(scaled(facing.cos as int, step))) as i64
                    },
                },
                cur_loc: if x_met && y_met {
                    self.following(self.target_index()) as nat
                } else {
                    self.target_index() as nat
                },
                ..self
            }
        }
    }

    /// This enemy after `n` moves of `dt` microseconds each, all by the
    /// bearing that it has now.
    pub open spec fn after_ticks(self, dt: u32, n: nat) -> ZombieView
        decreases n,
    {
        if n == 0 {
            self
        } else {
            self.after_ticks(dt, (n - 1) as nat).advanced(dt)
        }
    }

    /// This enemy after a hit that takes `amount` of health.
    pub open spec fn damaged(self, amount: i32) -> ZombieView {
        ZombieView { health: health_less(self.health as int, amount as int) as i32, ..self }
    }
}

/// Tests whether a coordinate reaches its target within one move.
fn arrives(pos: i64, target: i64, step: i64) -> (r: bool)
    ensures
        r == reaches(pos as int, target as int, step as int),
{
    let gap: i128 = target as i128 - pos as i128;
    let span: i128 = if gap >= 0 {
        gap
    } else {
        -gap
    };
    pos == target || span <= step as i128
}

impl Zombie {
    /// The vector from the position to the current waypoint: what the
    /// bearing is the direction of.  Zero for an enemy without a route.
    pub fn direction(&self) -> (r: Vec2)
        ensures
            self.loc@.len() > 0 ==> r == self@.direction(),
            self.loc@.len() == 0 ==> r == (Vec2 { x: 0, y: 0 }),
    {
        if self.loc.len() == 0 {
            Vec2 { x: 0, y: 0 }
        } else {
            let target: Vec2 = self.loc[self.cur_loc % self.loc.len()];
            Vec2 { x: offset_back(target.x, self.pos.x), y: offset_back(target.y, self.pos.y) }
        }
    }

    /// The heading along which the enemy moves and is drawn.
    pub fn facing(&self) -> (r: Heading)
        ensures
            r == self@.facing(),
    {
        self.bearing.normalize().turn_ahead()
    }

    /// Moves the enemy for `dt` microseconds toward its current waypoint and
    /// turns it to the next one on arrival.
    ///
    /// Afterwards the index points into the route, whatever it was before.
    pub fn advance(&mut self, dt: u32)
        ensures
            final(self)@ == old(self)@.advanced(dt),
            old(self).loc@.len() > 0 ==> final(self)@.well_formed(),
    {
        let len: usize = self.loc.len();
        if len == 0 {
            return ;
        }
        let index: usize = self.cur_loc % len;
        let target: Vec2 = self.loc[index];
        let facing: Heading = self.facing();
        let step: i64 = travel(ZOMBIE_SPEED, dt);
        let x_met: bool = arrives(self.pos.x, target.x, step);
        if x_met {
            self.pos.x = target.x;
        } else {
            self.pos.x = offset_by(self.pos.x, scale(facing.sin, step));
        }
        let y_met: bool = arrives(self.pos.y, target.y, step);
        if y_met {
            self.pos.y = target.y;
        } else {
            self.pos.y = offset_back(self.pos.y, scale(facing.cos, step));
        }
        if x_met && y_met {
            self.cur_loc = if index + 1 >= len {
                0
            } else {
                index + 1
            };
        } else {
            self.cur_loc = index;
        }
    }

    /// Takes `amount` from the enemy's health and says whether it has died:
    /// whether its health is now zero or less.  Removing it is the caller's part.
    pub fn apply_damage(&mut self, amount: i32) -> (died: bool)
        ensures
            final(self)@ == old(self)@.damaged(amount),
            died == (final(self).health <= 0),
    {
        let left: i64 = self.health as i64 - amount as i64;
        self.health = if left < i32::MIN as i64 {
            i32::MIN
        } else if left > i32::MAX as i64 {
            i32::MAX
        } else {
            left as i32
        };
        self.health <= 0
    }
}

/// Moves every enemy for `dt` microseconds along its route.
///
/// Each enemy moves by its own bearing, which the host has set from
/// [`Zombie::direction`] beforehand.  None is added or removed here.
pub fn zombie_mover(zombies: &mut Vec<Zombie>, dt: u32)
    ensures
        views(final(zombies)@) == marched(views(old(zombies)@), dt),
{
    let mut i: usize = 0;
    while i < zombies.len()
        invariant
            i <= zombies.len(),
            zombies@.len() == old(zombies)@.len(),
            forall|k: int|
                0 <= k < i ==> (#[trigger] zombies@[k])@ == old(zombies)@[k]@.advanced(dt),
            forall|k: int| i <= k < zombies@.len() ==> #[trigger] zombies@[k] == old(zombies)@[k],
        decreases zombies.len() - i,
    {
        zombies[i].advance(dt);
        i += 1;
    }
}

/// The route that newly spawned enemies patrol.
pub open spec fn patrol_route() -> Seq<Vec2> {
    seq![
        Vec2 { x: 400_000, y: 200_000 },
        Vec2 { x: 250_000, y: 450_000 },
        Vec2 { x: 400_000, y: 600_000 },
        Vec2 { x: 900_000, y: 600_000 },
        Vec2 { x: 900_000, y: 200_000 },
    ]
}

/// A newly spawned enemy that stands on waypoint `start` of the patrol route
/// and heads to the one after it, with full health.
pub open spec fn recruit(id: u64, start: int) -> ZombieView {
    ZombieView {
        id,
        pos: patrol_route()[start],
        loc: patrol_route(),
        cur_loc: (start + 1) as nat,
        hit_box: Vec2 { x: 100_000, y: 100_000 },
        health: 5,
        bearing: Heading { angle: 0, sin: 0, cos: ONE },
    }
}

/// Builds a new enemy on the patrol route.
fn enlist(id: u64, start: usize) -> (r: Zombie)
    requires
        start < 4,
    ensures
        r@ == recruit(id, start as int),
{
    let mut route: Vec<Vec2> = Vec::new();
    route.push(Vec2 { x: 400_000, y: 200_000 });
    route.push(Vec2 { x: 250_000, y: 450_000 });
    route.push(Vec2 { x: 400_000, y: 600_000 });
    route.push(Vec2 { x: 900_000, y: 600_000 });
    route.push(Vec2 { x: 900_000, y: 200_000 });
    assert(route@ =~= patrol_route());
    let pos: Vec2 = route[start];
    Zombie {
        id,
        pos,
        loc: route,
        cur_loc: start + 1,
        hit_box: Vec2 { x: 100_000, y: 100_000 },
        health: 5,
        bearing: Heading { angle: 0, sin: 0, cos: ONE },
    }
}

/// Keeps the world populated: when no enemy is left, two new ones appear on
/// the patrol route, one on its first waypoint and one on its fourth, each
/// heading to the waypoint after its own.
///
/// The two identities are used only when enemies are spawned; the result
/// says whether they were.
pub fn zombie_checker(zombies: &mut Vec<Zombie>, first_id: u64, second_id: u64) -> (spawned: bool)
    ensures
        spawned == (old(zombies)@.len() == 0),
        !spawned ==> *final(zombies) == *old(zombies),
        spawned ==> views(final(zombies)@) == seq![recruit(first_id, 0), recruit(second_id, 3)],
{
    if zombies.len() == 0 {
        zombies.push(enlist(first_id, 0));
        zombies.push(enlist(second_id, 3));
        true
    } else {
        false
    }
}

/// Whether `v` lies between `a` and `b`, ends included, whichever of the two is larger.
pub open spec fn between(v: int, a: int, b: int) -> bool {
    (a <= v <= b) || (b <= v <= a)
}

/// An enemy whose bearing points at its waypoint never walks past it: after
/// a move each coordinate lies between where it was and the waypoint's.
///
/// The bearing points at the waypoint when its cosine has the sign of the
/// distance left along x and its sine the sign of the distance left along y.
pub proof fn lemma_patrol_never_overshoots(z: ZombieView, dt: u32)
    requires
        z.loc.len() > 0,
        -ONE <= z.bearing.sin <= ONE,
        -ONE <= z.bearing.cos <= ONE,
        z.bearing.cos * (z.target().x - z.pos.x) >= 0,
        z.bearing.sin * (z.target().y - z.pos.y) >= 0,
    ensures
        between(z.advanced(dt).pos.x as int, z.pos.x as int, z.target().x as int),
        between(z.advanced(dt).pos.y as int, z.pos.y as int, z.target().y as int),
{
    let step = saturated(distance(ZOMBIE_SPEED as int, dt as int));
    let cos = z.bearing.cos as int;
    let sin = z.bearing.sin as int;
    let dx = z.target().x - z.pos.x;
    let dy = z.target().y - z.pos.y;
    lemma_scaled_within(cos, step);
    lemma_scaled_within(-sin, step);
    if !reaches(z.pos.x as int, z.target().x as int, step) {
        assert(cos > 0 ==> dx >= 0) by (nonlinear_arith)
            requires
                cos * dx >= 0,
        ;
        assert(cos < 0 ==> dx <= 0) by (nonlinear_arith)
            requires
                cos * dx >= 0,
        ;
    }
    if !reaches(z.pos.y as int, z.target().y as int, step) {
        assert(sin > 0 ==> dy >= 0) by (nonlinear_arith)
            requires
                sin * dy >= 0,
        ;
        assert(sin < 0 ==> dy <= 0) by (nonlinear_arith)
            requires
                sin * dy >= 0,
        ;
    }
}

/// Whether an enemy reaches its waypoint on both axes within a move of
/// `dt` microseconds.
pub open spec fn arrives_within(z: ZombieView, dt: u32) -> bool {
    let step = saturated(distance(ZOMBIE_SPEED as int, dt as int));
    &&& reaches(z.pos.x as int, z.target().x as int, step)
    &&& reaches(z.pos.y as int, z.target().y as int, step)
}

/// An enemy arrives exactly, and turns as it arrives.
///
/// An enemy that reaches its waypoint within a move stands on it afterwards
/// and heads to the next waypoint, the first after the last.  One that does
/// not keeps heading to the same waypoint.  Either way the route stays as it
/// is and the index points into it.
pub proof fn lemma_patrol_arrives_exactly(z: ZombieView, dt: u32)
    requires
        z.loc.len() > 0,
    ensures
        z.advanced(dt).loc == z.loc,
        z.advanced(dt).well_formed(),
        arrives_within(z, dt) ==> z.advanced(dt).pos == z.target(),
        arrives_within(z, dt) ==> z.advanced(dt).cur_loc == z.following(z.target_index()),
        !arrives_within(z, dt) ==> z.advanced(dt).cur_loc == z.target_index(),
        z.well_formed() ==> z.target_index() == z.cur_loc,
{
    if z.well_formed() {
        vstd::arithmetic::div_mod::lemma_small_mod(z.cur_loc, z.loc.len());
    }
}

/// A walk along the x axis, move by move.
///
/// Take an enemy that stands level with its waypoint and bears straight at
/// it, and let every move be one step long.  While the way left is longer
/// than the steps taken, the enemy has advanced by exactly those steps.
/// With the first move that covers the way left it stands exactly on the
/// waypoint and heads to the next.
pub proof fn lemma_patrol_walks_straight(z: ZombieView, dt: u32, n: nat)
    requires
        z.well_formed(),
        z.pos.y == z.target().y,
        z.pos.x != z.target().x,
        z.bearing.sin == 0,
        z.bearing.cos == (if z.pos.x < z.target().x {
            ONE as int
        } else {
            -ONE
        }),
        saturated(distance(ZOMBIE_SPEED as int, dt as int)) > 0,
    ensures
        ({
            let step = saturated(distance(ZOMBIE_SPEED as int, dt as int));
            let way = if z.pos.x < z.target().x {
                z.target().x - z.pos.x
            } else {
                z.pos.x - z.target().x
            };
            let ahead = if z.pos.x < z.target().x {
                z.pos.x + n * step
            } else {
                z.pos.x - n * step
            };
            &&& n * step < way ==> z.after_ticks(dt, n) == (ZombieView {
                pos: Vec2 { x: ahead as i64, y: z.pos.y },
                ..z
            })
            &&& n >= 1 && (n - 1) * step < way <= n * step ==> z.after_ticks(dt, n)
                == (ZombieView {
                pos: z.target(),
                cur_loc: z.following(z.cur_loc as int) as nat,
                ..z
            })
        }),
    decreases n,
{
    let step = saturated(distance(ZOMBIE_SPEED as int, dt as int));
    let way = if z.pos.x < z.target().x {
        z.target().x - z.pos.x
    } else {
        z.pos.x - z.target().x
    };
    vstd::arithmetic::div_mod::lemma_small_mod(z.cur_loc, z.loc.len());
    if n > 0 {
        assert(n * step == (n - 1) * step + step) by (nonlinear_arith);
        if (n - 1) * step < way {
            lemma_patrol_walks_straight(z, dt, (n - 1) as nat);
            lemma_scaled_whole(step);
        }
    }
}

/// The health left after `n` hits of `amount` each.
pub open spec fn health_after_hits(health: int, amount: int, n: nat) -> int
    decreases n,
{
    if n == 0 {
        health
    } else {
        health_less(health_after_hits(health, amount, (n - 1) as nat), amount)
    }
}

/// An enemy dies on the first hit that brings the damage taken up to its
/// health, and on none before: after `n` hits of `amount` each its health is
/// zero or less exactly when `n * amount` is at least the health it had.
pub proof fn lemma_dies_on_the_last_hit(health: i32, amount: i32, n: nat)
    requires
        amount >= 0,
    ensures
        health_after_hits(health as int, amount as int, n) <= 0 <==> n * amount >= health,
        health - n * amount >= i32::MIN ==> health_after_hits(health as int, amount as int, n)
            == health - n * amount,
{
    lemma_health_after_hits_bounds(health, amount, n);
}

/// With hits that take health and never give it, the health after `n` hits
/// is the health less the damage taken, or the least `i32` where that is lower.
proof fn lemma_health_after_hits_bounds(health: i32, amount: i32, n: nat)
    requires
        amount >= 0,
    ensures
        health_after_hits(health as int, amount as int, n) == if health - n * amount >= i32::MIN {
            health - n * amount
        } else {
            i32::MIN as int
        },
    decreases n,
{
    if n == 0 {
    } else {
        lemma_health_after_hits_bounds(health, amount, (n - 1) as nat);
        assert(n * amount == (n - 1) * amount + amount) by (nonlinear_arith);
    }
}

} // verus!
