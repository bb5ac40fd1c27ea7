//! Projectiles: straight-line flight until the edge of the world, and what
//! happens when one meets an enemy.

use rand::rngs::StdRng;
use rand::Rng;
use vstd::prelude::*;

use crate::utils::{
    distance, offset_back, offset_by, saturate, saturated, scale, scaled, travel, Heading, Vec2,
    QUARTER_TURN,
};
use crate::zombie::{health_less, views, Zombie, ZombieView};
use crate::GameDetails;

verus! {

/// Speed of a projectile in world units per second.
pub const BULLET_SPEED: i64 = 500;

/// A projectile in flight.
#[derive(Clone, Copy, Debug, PartialEq, Eq, Structural)]
pub struct Bullet {
    /// Identity under which the host knows this projectile.
    pub id: u64,
    /// Position in the world.
    pub loc: Vec2,
    /// Direction of travel; an angle of zero points down the negative y axis.
    pub angle: Heading,
    /// Full extent of the rectangle tested against enemies, centred on `loc`.
    pub hit_box: Vec2,
    /// Health that a hit takes from an enemy.
    pub damage: i32,
}

impl Bullet {
    /// This projectile after `dt` microseconds of flight: it has moved by the
    /// sine of its angle along x and against the cosine along y.
    pub open spec fn advanced(self, dt: u32) -> Bullet {
        let step = saturated(distance(BULLET_SPEED as int, dt as int));
        Bullet {
            loc: Vec2 {
                x: saturated(self.loc.x + saturated(scaled(self.angle.sin as int, step))) as i64,
                y: saturated(self.loc.y - saturated(scaled(self.angle.cos as int, step))) as i64,
            },
            ..self
        }
    }

    /// Moves the projectile for `dt` microseconds and reports whether it is
    /// still in the world.  It has left as soon as either coordinate is below
    /// zero or at or beyond the world's extent, and not before.
    pub fn advance(&mut self, dt: u32, details: &GameDetails) -> (in_world: bool)
        ensures
            *final(self) == old(self).advanced(dt),
            in_world == details.contains(final(self).loc),
    {
        let step: i64 = travel(BULLET_SPEED, dt);
        self.loc.x = offset_by(self.loc.x, scale(self.angle.sin, step));
        self.loc.y = offset_back(self.loc.y, scale(self.angle.cos, step));
        details.in_world(self.loc)
    }
}

/// Every projectile of `bullets` after `dt` microseconds of flight.
pub open spec fn flown(bullets: Seq<Bullet>, dt: u32) -> Seq<Bullet> {
    bullets.map_values(|b: Bullet| b.advanced(dt))
}

/// The projectiles of `bullets` that are in the world, in their order.
pub open spec fn inside(bullets: Seq<Bullet>, details: GameDetails) -> Seq<Bullet> {
    bullets.filter(|b: Bullet| details.contains(b.loc))
}

/// The projectiles of `bullets` that are not in the world, in their order.
pub open spec fn outside(bullets: Seq<Bullet>, details: GameDetails) -> Seq<Bullet> {
    bullets.filter(|b: Bullet| !details.contains(b.loc))
}

/// The identities of `bullets`, in their order.
pub open spec fn bullet_ids(bullets: Seq<Bullet>) -> Seq<u64> {
    bullets.map_values(|b: Bullet| b.id)
}

/// Taking one more projectile into account appends it, advanced, to those
/// that stay or to those that leave.
proof fn lemma_flown_step(bullets: Seq<Bullet>, i: int, dt: u32, details: GameDetails)
    requires
        0 <= i < bullets.len(),
    ensures
        inside(flown(bullets.take(i + 1), dt), details) == if details.contains(
            bullets[i].advanced(dt).loc,
        ) {
            inside(flown(bullets.take(i), dt), details).push(bullets[i].advanced(dt))
        } else {
            inside(flown(bullets.take(i), dt), details)
        },
        bullet_ids(outside(flown(bullets.take(i + 1), dt), details)) == if details.contains(
            bullets[i].advanced(dt).loc,
        ) {
            bullet_ids(outside(flown(bullets.take(i), dt), details))
        } else {
            bullet_ids(outside(flown(bullets.take(i), dt), details)).push(bullets[i].id)
        },
{
    let before = flown(bullets.take(i), dt);
    let moved = bullets[i].advanced(dt);
    assert(flown(bullets.take(i + 1), dt) =~= before.push(moved));
    before.lemma_filter_push(moved, |b: Bullet| details.contains(b.loc));
    before.lemma_filter_push(moved, |b: Bullet| !details.contains(b.loc));
}

/// Projectiles leave at the edge of the world and nowhere else.
///
/// Every projectile that stays after a move is in the world.  Every
/// projectile that is in the world after its move stays, and every one that
/// is not has its identity among those removed.
pub proof fn lemma_bullets_leave_at_the_edge(bullets: Seq<Bullet>, dt: u32, details: GameDetails)
    ensures
        forall|k: int|
            0 <= k < inside(flown(bullets, dt), details).len() ==> details.contains(
                (#[trigger] inside(flown(bullets, dt), details)[k]).loc,
            ),
        forall|i: int|
            0 <= i < bullets.len() && details.contains((#[trigger] bullets[i]).advanced(dt).loc)
                ==> inside(flown(bullets, dt), details).contains(bullets[i].advanced(dt)),
        forall|i: int|
            0 <= i < bullets.len() && !details.contains((#[trigger] bullets[i]).advanced(dt).loc)
                ==> bullet_ids(outside(flown(bullets, dt), details)).contains(bullets[i].id),
{
    let moved = flown(bullets, dt);
    let stays = |b: Bullet| details.contains(b.loc);
    let leaves = |b: Bullet| !details.contains(b.loc);
    assert forall|i: int|
        0 <= i < bullets.len() && details.contains(
            (#[trigger] bullets[i]).advanced(dt).loc,
        ) implies inside(moved, details).contains(bullets[i].advanced(dt)) by {
        moved.lemma_filter_contains(stays, i);
    }
    assert forall|i: int|
        0 <= i < bullets.len() && !details.contains(
            (#[trigger] bullets[i]).advanced(dt).loc,
        ) implies bullet_ids(outside(moved, details)).contains(bullets[i].id) by {
        moved.lemma_filter_contains(leaves, i);
        let gone = outside(moved, details);
        let at = choose|at: int| 0 <= at < gone.len() && gone[at] == moved[i];
        assert(bullet_ids(gone)[at] == bullets[i].id);
    }
}

/// Moves every projectile for `dt` microseconds and removes those that have
/// left the world.
///
/// The projectiles that stay keep their order.  The result lists the
/// identities of those removed, in the order in which they stood.
pub fn bullet_mover(bullets: &mut Vec<Bullet>, dt: u32, details: &GameDetails) -> (gone: Vec<u64>)
    ensures
        final(bullets)@ == inside(flown(old(bullets)@, dt), *details),
        gone@ == bullet_ids(outside(flown(old(bullets)@, dt), *details)),
        final(bullets)@.len() + gone@.len() == old(bullets)@.len(),
{
    let mut kept: Vec<Bullet> = Vec::new();
    let mut gone: Vec<u64> = Vec::new();
    let mut i: usize = 0;
    while i < bullets.len()
        invariant
            i <= bullets.len(),
            bullets@ == old(bullets)@,
            kept@ == inside(flown(bullets@.take(i as int), dt), *details),
            gone@ == bullet_ids(outside(flown(bullets@.take(i as int), dt), *details)),
            kept@.len() + gone@.len() == i,
        decreases bullets.len() - i,
    {
        let mut bullet: Bullet = bullets[i];
        let in_world: bool = bullet.advance(dt, details);
        proof {
            lemma_flown_step(bullets@, i as int, dt, *details);
        }
        if in_world {
            kept.push(bullet);
        } else {
            gone.push(bullet.id);
        }
        i += 1;
    }
    assert(bullets@.take(i as int) =~= bullets@);
    *bullets = kept;
    gone
}

/// The distance between two coordinates.
pub open spec fn gap(a: int, b: int) -> int {
    if a >= b {
        a - b
    } else {
        b - a
    }
}

/// Whether two rectangles overlap, each given by its centre and its full
/// extent: on both axes the centres are closer than half the sum of the
/// extents.  Rectangles that only touch do not overlap.
pub open spec fn overlaps(a_pos: Vec2, a_size: Vec2, b_pos: Vec2, b_size: Vec2) -> bool {
    &&& 2 * gap(a_pos.x as int, b_pos.x as int) < a_size.x + b_size.x
    &&& 2 * gap(a_pos.y as int, b_pos.y as int) < a_size.y + b_size.y
}

/// Overlap does not depend on which rectangle is named first, a rectangle of
/// positive extent overlaps itself, and two rectangles whose centres are
/// exactly half the sum of their extents apart on an axis only touch.
pub proof fn lemma_overlap_is_symmetric_and_strict(
    a_pos: Vec2,
    a_size: Vec2,
    b_pos: Vec2,
    b_size: Vec2,
)
    ensures
        overlaps(a_pos, a_size, b_pos, b_size) == overlaps(b_pos, b_size, a_pos, a_size),
        a_size.x > 0 && a_size.y > 0 ==> overlaps(a_pos, a_size, a_pos, a_size),
        2 * gap(a_pos.x as int, b_pos.x as int) == a_size.x + b_size.x ==> !overlaps(
            a_pos,
            a_size,
            b_pos,
            b_size,
        ),
        2 * gap(a_pos.y as int, b_pos.y as int) == a_size.y + b_size.y ==> !overlaps(
            a_pos,
            a_size,
            b_pos,
            b_size,
        ),
{
}

/// Tests two rectangles for overlap.
pub fn collide(a_pos: Vec2, a_size: Vec2, b_pos: Vec2, b_size: Vec2) -> (hit: bool)
    ensures
        hit == overlaps(a_pos, a_size, b_pos, b_size),
{
    let dx: i128 = a_pos.x as i128 - b_pos.x as i128;
    let dy: i128 = a_pos.y as i128 - b_pos.y as i128;
    let gap_x: i128 = if dx >= 0 {
        dx
    } else {
        -dx
    };
    let gap_y: i128 = if dy >= 0 {
        dy
    } else {
        -dy
    };
    2 * gap_x < a_size.x as i128 + b_size.x as i128 && 2 * gap_y < a_size.y as i128
        + b_size.y as i128
}

/// One projectile hitting one enemy.
#[derive(Clone, Copy, Debug, PartialEq, Eq, Structural)]
pub struct Strike {
    /// Identity of the projectile.
    pub bullet: u64,
    /// Identity of the enemy.
    pub zombie: u64,
    /// Where the enemy stood.
    pub loc: Vec2,
    /// The angle along which the projectile travelled.
    pub angle: i64,
}

/// What a round of collisions has done, besides changing the projectiles and
/// the enemies themselves.
#[derive(Debug)]
pub struct Resolution {
    /// Every hit, projectile by projectile and for each projectile enemy by enemy.
    pub strikes: Vec<Strike>,
    /// Identities of the projectiles removed.
    pub bullets_gone: Vec<u64>,
    /// Identities of the enemies removed.
    pub zombies_gone: Vec<u64>,
}

/// Whether projectile `b` hits enemy `z`.
pub open spec fn struck(b: Bullet, z: ZombieView) -> bool {
    overlaps(b.loc, b.hit_box, z.pos, z.hit_box)
}

/// The record of `b` hitting `z`.
pub open spec fn strike(b: Bullet, z: ZombieView) -> Strike {
    Strike { bullet: b.id, zombie: z.id, loc: z.pos, angle: b.angle.angle }
}

/// The hits of projectile `b` on the first `m` of `zombies`, in their order.
pub open spec fn strikes_of(b: Bullet, zombies: Seq<ZombieView>, m: nat) -> Seq<Strike>
    decreases m,
{
    if m == 0 {
        Seq::empty()
    } else {
        let earlier = strikes_of(b, zombies, (m - 1) as nat);
        if struck(b, zombies[m - 1]) {
            earlier.push(strike(b, zombies[m - 1]))
        } else {
            earlier
        }
    }
}

/// The hits of the first `n` of `bullets` on `zombies`: those of the first
/// projectile, then those of the second, and so on.
pub open spec fn strikes(bullets: Seq<Bullet>, zombies: Seq<ZombieView>, n: nat) -> Seq<Strike>
    decreases n,
{
    if n == 0 {
        Seq::empty()
    } else {
        strikes(bullets, zombies, (n - 1) as nat) + strikes_of(
            bullets[n - 1],
            zombies,
            zombies.len(),
        )
    }
}

/// Whether projectile `b` hits any of `zombies`.
pub open spec fn spent(b: Bullet, zombies: Seq<ZombieView>) -> bool {
    exists|j: int| 0 <= j < zombies.len() && struck(b, #[trigger] zombies[j])
}

/// The health of enemy `z` after the first `n` of `bullets` have dealt their
/// damage: every one of them that hits takes its damage.
pub open spec fn health_after(bullets: Seq<Bullet>, z: ZombieView, n: nat) -> i32
    decreases n,
{
    if n == 0 {
        z.health
    } else {
        let before = health_after(bullets, z, (n - 1) as nat);
        if struck(bullets[n - 1], z) {
            health_less(before as int, bullets[n - 1].damage as int) as i32
        } else {
            before
        }
    }
}

/// Whether one of the first `n` of `bullets` kills enemy `z`: whether it
/// hits and leaves the enemy with a health of zero or less.
pub open spec fn killed(bullets: Seq<Bullet>, z: ZombieView, n: nat) -> bool
    decreases n,
{
    n > 0 && (killed(bullets, z, (n - 1) as nat) || (struck(bullets[n - 1], z) && health_after(
        bullets,
        z,
        n,
    ) <= 0))
}

/// Enemy `z` with the health that `bullets` leave it.
pub open spec fn wounded(bullets: Seq<Bullet>, z: ZombieView) -> ZombieView {
    ZombieView { health: health_after(bullets, z, bullets.len()), ..z }
}

/// The enemies that `bullets` do not kill, with the health left to them, in
/// their order.
pub open spec fn survivors(bullets: Seq<Bullet>, zombies: Seq<ZombieView>) -> Seq<ZombieView> {
    zombies.filter(|z: ZombieView| !killed(bullets, z, bullets.len())).map_values(
        |z: ZombieView| wounded(bullets, z),
    )
}

/// The identities of the enemies that `bullets` kill, in their order.
pub open spec fn casualties(bullets: Seq<Bullet>, zombies: Seq<ZombieView>) -> Seq<u64> {
    zombies.filter(|z: ZombieView| killed(bullets, z, bullets.len())).map_values(
        |z: ZombieView| z.id,
    )
}

/// The projectiles that hit none of `zombies`, in their order.
pub open spec fn unspent(bullets: Seq<Bullet>, zombies: Seq<ZombieView>) -> Seq<Bullet> {
    bullets.filter(|b: Bullet| !spent(b, zombies))
}

/// The identities of the projectiles that hit one of `zombies`, in their order.
pub open spec fn spent_ids(bullets: Seq<Bullet>, zombies: Seq<ZombieView>) -> Seq<u64> {
    bullet_ids(bullets.filter(|b: Bullet| spent(b, zombies)))
}

/// With projectiles that take health and never give it, an enemy that had
/// health is removed exactly when the hits leave it none: not while any
/// health is left, and as soon as none is.
pub proof fn lemma_removed_when_health_is_used_up(bullets: Seq<Bullet>, z: ZombieView, n: nat)
    requires
        n <= bullets.len(),
        z.health > 0,
        forall|i: int| 0 <= i < bullets.len() ==> (#[trigger] bullets[i]).damage >= 0,
    ensures
        killed(bullets, z, n) <==> health_after(bullets, z, n) <= 0,
        health_after(bullets, z, n) <= z.health,
    decreases n,
{
    if n > 0 {
        lemma_removed_when_health_is_used_up(bullets, z, (n - 1) as nat);
    }
}

/// Taking one more projectile into account appends it to those that fly on,
/// or its identity to those that are spent.
proof fn lemma_unspent_step(bullets: Seq<Bullet>, i: int, zombies: Seq<ZombieView>)
    requires
        0 <= i < bullets.len(),
    ensures
        unspent(bullets.take(i + 1), zombies) == if spent(bullets[i], zombies) {
            unspent(bullets.take(i), zombies)
        } else {
            unspent(bullets.take(i), zombies).push(bullets[i])
        },
        spent_ids(bullets.take(i + 1), zombies) == if spent(bullets[i], zombies) {
            spent_ids(bullets.take(i), zombies).push(bullets[i].id)
        } else {
            spent_ids(bullets.take(i), zombies)
        },
{
    let before = bullets.take(i);
    assert(bullets.take(i + 1) =~= before.push(bullets[i]));
    before.lemma_filter_push(bullets[i], |b: Bullet| !spent(b, zombies));
    before.lemma_filter_push(bullets[i], |b: Bullet| spent(b, zombies));
}

/// Taking one more enemy into account appends it, wounded, to the
/// survivors, or its identity to the casualties.
proof fn lemma_survivors_step(bullets: Seq<Bullet>, zombies: Seq<ZombieView>, j: int)
    requires
        0 <= j < zombies.len(),
    ensures
        survivors(bullets, zombies.take(j + 1)) == if killed(bullets, zombies[j], bullets.len()) {
            survivors(bullets, zombies.take(j))
        } else {
            survivors(bullets, zombies.take(j)).push(wounded(bullets, zombies[j]))
        },
        casualties(bullets, zombies.take(j + 1)) == if killed(bullets, zombies[j], bullets.len()) {
            casualties(bullets, zombies.take(j)).push(zombies[j].id)
        } else {
            casualties(bullets, zombies.take(j))
        },
{
    let before = zombies.take(j);
    let lives = |z: ZombieView| !killed(bullets, z, bullets.len());
    let dies = |z: ZombieView| killed(bullets, z, bullets.len());
    assert(zombies.take(j + 1) =~= before.push(zombies[j]));
    before.lemma_filter_push(zombies[j], lives);
    before.lemma_filter_push(zombies[j], dies);
}

/// Lets every projectile hit every enemy that it overlaps.
///
/// Each hit takes the projectile's damage from the enemy's health.  A
/// projectile that overlaps several enemies hits them all.  Afterwards the
/// projectiles that have hit anything are removed, and so are the enemies
/// that a hit has left with a health of zero or less; the others keep their
/// order.  Positions do not change.
pub fn resolve_hits(bullets: &mut Vec<Bullet>, zombies: &mut Vec<Zombie>) -> (done: Resolution)
    ensures
        done.strikes@ == strikes(old(bullets)@, views(old(zombies)@), old(bullets)@.len()),
        final(bullets)@ == unspent(old(bullets)@, views(old(zombies)@)),
        done.bullets_gone@ == spent_ids(old(bullets)@, views(old(zombies)@)),
        views(final(zombies)@) == survivors(old(bullets)@, views(old(zombies)@)),
        done.zombies_gone@ == casualties(old(bullets)@, views(old(zombies)@)),
{
    let ghost shots = bullets@;
    let ghost before = views(zombies@);
    let mut found: Vec<Strike> = Vec::new();
    let mut kept: Vec<Bullet> = Vec::new();
    let mut bullets_gone: Vec<u64> = Vec::new();
    let mut doomed: Vec<bool> = Vec::new();
    let mut j: usize = 0;
    while j < zombies.len()
        invariant
            j <= zombies.len(),
            doomed@.len() == j,
            forall|k: int| 0 <= k < j ==> !(#[trigger] doomed@[k]),
        decreases zombies.len() - j,
    {
        doomed.push(false);
        j += 1;
    }
    let mut i: usize = 0;
    while i < bullets.len()
        invariant
            i <= bullets.len(),
            bullets@ == shots,
            zombies@.len() == before.len(),
            doomed@.len() == before.len(),
            forall|k: int|
                0 <= k < before.len() ==> (#[trigger] zombies@[k])@ == (ZombieView {
                    health: health_after(shots, before[k], i as nat),
                    ..before[k]
                }),
            forall|k: int|
                0 <= k < before.len() ==> #[trigger] doomed@[k] == killed(shots, before[k], i as nat),
            found@ == strikes(shots, before, i as nat),
            kept@ == unspent(shots.take(i as int), before),
            bullets_gone@ == spent_ids(shots.take(i as int), before),
        decreases bullets.len() - i,
    {
        let bullet: Bullet = bullets[i];
        let mut used: bool = false;
        let ghost earlier = found@;
        let mut j: usize = 0;
        while j < zombies.len()
            invariant
                j <= zombies.len(),
                i < shots.len(),
                bullet == shots[i as int],
                zombies@.len() == before.len(),
                doomed@.len() == before.len(),
                forall|k: int|
                    0 <= k < j ==> (#[trigger] zombies@[k])@ == (ZombieView {
                        health: health_after(shots, before[k], (i + 1) as nat),
                        ..before[k]
                    }),
                forall|k: int|
                    j <= k < before.len() ==> (#[trigger] zombies@[k])@ == (ZombieView {
                        health: health_after(shots, before[k], i as nat),
                        ..before[k]
                    }),
                forall|k: int|
                    0 <= k < j ==> #[trigger] doomed@[k] == killed(shots, before[k], (i + 1) as nat),
                forall|k: int|
                    j <= k < before.len() ==> #[trigger] doomed@[k] == killed(
                        shots,
                        before[k],
                        i as nat,
                    ),
                found@ == earlier + strikes_of(bullet, before, j as nat),
                used == (exists|k: int| 0 <= k < j && struck(bullet, #[trigger] before[k])),
            decreases zombies.len() - j,
        {
            let hit: bool = collide(bullet.loc, bullet.hit_box, zombies[j].pos, zombies[j].hit_box);
            if hit {
                found.push(
                    Strike {
                        bullet: bullet.id,
                        zombie: zombies[j].id,
                        loc: zombies[j].pos,
                        angle: bullet.angle.angle,
                    },
                );
                let died: bool = zombies[j].apply_damage(bullet.damage);
                if died {
                    doomed.set(j, true);
                }
                used = true;
            }
            j += 1;
        }
        proof {
            lemma_unspent_step(shots, i as int, before);
        }
        if used {
            bullets_gone.push(bullet.id);
        } else {
            kept.push(bullet);
        }
        i += 1;
    }
    assert(shots.take(i as int) =~= shots);
    *bullets = kept;

    let mut fallen: Vec<Zombie> = Vec::new();
    std::mem::swap(zombies, &mut fallen);
    let mut zombies_gone: Vec<u64> = Vec::new();
    let mut j: usize = 0;
    let count: usize = doomed.len();
    for zombie in it: fallen
        invariant
            j == it.index(),
            count == before.len(),
            it.seq().len() == before.len(),
            doomed@.len() == before.len(),
            forall|k: int|
                0 <= k < before.len() ==> (#[trigger] it.seq()[k])@ == wounded(shots, before[k]),
            forall|k: int|
                0 <= k < before.len() ==> #[trigger] doomed@[k] == killed(
                    shots,
                    before[k],
                    shots.len(),
                ),
            views(zombies@) == survivors(shots, before.take(j as int)),
            zombies_gone@ == casualties(shots, before.take(j as int)),
    {
        proof {
            lemma_survivors_step(shots, before, j as int);
        }
        if doomed[j] {
            zombies_gone.push(zombie.id);
        } else {
            zombies.push(zombie);
        }
        j += 1;
    }
    assert(before.take(j as int) =~= before);
    Resolution { strikes: found, bullets_gone, zombies_gone }
}

/// The random number generator that decides how blood spatters.
#[verifier::external_type_specification]
#[verifier::external_body]
pub struct ExStdRng(rand::rngs::StdRng);

/// Half the width of the fan into which blood spatters, in angle steps.
pub const SPATTER_SPREAD: i64 = 60_000;

/// Draws a number from `low` up to, but not including, `high`.
///
/// Calls `rand::Rng::gen_range` of the `rand` crate on the half-open range
/// `low..high`.  Trusted: the result lies in that range.  The range must not
/// be empty, on which `gen_range` panics.
#[verifier::external_body]
fn draw(rng: &mut StdRng, low: i64, high: i64) -> (r: i64)
    requires
        low < high,
    ensures
        low <= r < high,
{
    rng.gen_range(low..high)
}

/// A request to create one blood decal.
#[derive(Clone, Copy, Debug, PartialEq, Eq, Structural)]
pub struct SpatterRequest {
    /// Where the decal appears.
    pub loc: Vec2,
    /// The angle along which it spatters.
    pub rot: i64,
}

/// A hit together with the blood that it draws.
#[derive(Debug)]
pub struct Hit {
    /// Who hit whom, and where.
    pub strike: Strike,
    /// One angle for each decal: how far its direction is off the middle of
    /// the fan.
    pub jitters: Vec<i64>,
}

/// What is known of the angles drawn for one hit: there are two or three of
/// them, each strictly inside the fan.
pub open spec fn sprayed(jitters: Seq<i64>) -> bool {
    &&& 2 <= jitters.len() < 4
    &&& forall|k: int|
        0 <= k < jitters.len() ==> -SPATTER_SPREAD < #[trigger] jitters[k] < SPATTER_SPREAD
}

/// The decals that a hit asks for: one for each jitter, all where the enemy
/// stood, each along the projectile's angle turned back a quarter turn and
/// then off by its jitter.
pub open spec fn spatter_of(strike: Strike, jitters: Seq<i64>) -> Seq<SpatterRequest> {
    Seq::new(
        jitters.len(),
        |k: int|
            SpatterRequest {
                loc: strike.loc,
                rot: saturated(strike.angle - QUARTER_TURN + jitters[k]) as i64,
            },
    )
}

/// Draws the angles for one hit: two or three of them, each strictly inside
/// the fan.
pub fn spray(rng: &mut StdRng) -> (jitters: Vec<i64>)
    ensures
        sprayed(jitters@),
{
    let count: i64 = draw(rng, 2, 4);
    let mut jitters: Vec<i64> = Vec::new();
    let mut k: i64 = 0;
    while k < count
        invariant
            0 <= k <= count < 4,
            jitters@.len() == k,
            forall|n: int|
                0 <= n < jitters@.len() ==> -SPATTER_SPREAD < #[trigger] jitters@[n]
                    < SPATTER_SPREAD,
        decreases count - k,
    {
        let jitter: i64 = draw(rng, -SPATTER_SPREAD + 1, SPATTER_SPREAD);
        jitters.push(jitter);
        k += 1;
    }
    jitters
}

/// Lists the decals that a hit with the given jitters asks for.
pub fn spatter_requests(strike: Strike, jitters: &Vec<i64>) -> (requests: Vec<SpatterRequest>)
    ensures
        requests@ == spatter_of(strike, jitters@),
{
    let mut requests: Vec<SpatterRequest> = Vec::new();
    let mut k: usize = 0;
    while k < jitters.len()
        invariant
            k <= jitters.len(),
            requests@ == spatter_of(strike, jitters@.take(k as int)),
        decreases jitters.len() - k,
    {
        let rot: i64 = saturate(strike.angle as i128 - QUARTER_TURN as i128 + jitters[k] as i128);
        requests.push(SpatterRequest { loc: strike.loc, rot });
        k += 1;
    }
    requests
}

impl Hit {
    /// Lists the decals that this hit asks for.
    pub fn spatter(&self) -> (requests: Vec<SpatterRequest>)
        ensures
            requests@ == spatter_of(self.strike, self.jitters@),
    {
        spatter_requests(self.strike, &self.jitters)
    }
}

/// What a round of collisions has done, besides changing the projectiles and
/// the enemies themselves, with the blood that each hit draws.
#[derive(Debug)]
pub struct Collisions {
    /// Every hit, projectile by projectile and for each projectile enemy by enemy.
    pub hits: Vec<Hit>,
    /// Identities of the projectiles removed.
    pub bullets_gone: Vec<u64>,
    /// Identities of the enemies removed.
    pub zombies_gone: Vec<u64>,
}

/// Lets every projectile hit every enemy that it overlaps, and draws blood.
///
/// Projectiles and enemies fare as in [`resolve_hits`].  Every hit comes
/// with two or three angles drawn from `rng`, one for each decal that the
/// host is to create where the enemy stood; [`Hit::spatter`] turns them into
/// requests.
pub fn bullet_collision(bullets: &mut Vec<Bullet>, zombies: &mut Vec<Zombie>, rng: &mut StdRng) -> (done:
    Collisions)
    ensures
        final(bullets)@ == unspent(old(bullets)@, views(old(zombies)@)),
        done.bullets_gone@ == spent_ids(old(bullets)@, views(old(zombies)@)),
        views(final(zombies)@) == survivors(old(bullets)@, views(old(zombies)@)),
        done.zombies_gone@ == casualties(old(bullets)@, views(old(zombies)@)),
        done.hits@.len() == strikes(
            old(bullets)@,
            views(old(zombies)@),
            old(bullets)@.len(),
        ).len(),
        forall|k: int|
            0 <= k < done.hits@.len() ==> (#[trigger] done.hits@[k]).strike == strikes(
                old(bullets)@,
                views(old(zombies)@),
                old(bullets)@.len(),
            )[k],
        forall|k: int| 0 <= k < done.hits@.len() ==> sprayed((#[trigger] done.hits@[k]).jitters@),
{
    let resolved: Resolution = resolve_hits(bullets, zombies);
    let mut hits: Vec<Hit> = Vec::new();
    let mut k: usize = 0;
    while k < resolved.strikes.len()
        invariant
            k <= resolved.strikes.len(),
            hits@.len() == k,
            forall|n: int| 0 <= n < k ==> (#[trigger] hits@[n]).strike == resolved.strikes@[n],
            forall|n: int| 0 <= n < k ==> sprayed((#[trigger] hits@[n]).jitters@),
        decreases resolved.strikes.len() - k,
    {
        let jitters: Vec<i64> = spray(rng);
        hits.push(Hit { strike: resolved.strikes[k], jitters });
        k += 1;
    }
    Collisions { hits, bullets_gone: resolved.bullets_gone, zombies_gone: resolved.zombies_gone }
}

} // verus!
