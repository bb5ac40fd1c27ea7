//! Blood decals: a short spatter, then a slow decay.

use vstd::prelude::*;

use crate::utils::{distance, offset_by, saturate, saturated, scale, scaled, travel, Heading, Vec2};

verus! {

/// Time for which a new decal stays once it has stopped moving, in microseconds.
pub const BLOOD_TTL: i64 = 3_000_000;

/// Time for which a new decal moves, in microseconds.
pub const BLOOD_TTM: i64 = 200_000;

/// Speed of a spattering decal in world units per second.
pub const BLOOD_SPATTER_SPEED: i64 = 380;

/// A blood decal.
#[derive(Clone, Copy, Debug, PartialEq, Eq, Structural)]
pub struct Blood {
    /// Identity under which the host knows this decal.
    pub id: u64,
    /// Time left to live once the decal has stopped moving.
    pub ttl: i64,
    /// Time left to move; the decal moves while this is zero or more.
    pub ttm: i64,
    /// Direction of the spatter.
    pub rot: Heading,
    /// Position in the world.
    pub loc: Vec2,
}

impl Blood {
    /// A decal as it is created at `loc`.
    pub open spec fn fresh(id: u64, loc: Vec2, rot: Heading) -> Blood {
        Blood { id, ttl: BLOOD_TTL, ttm: BLOOD_TTM, rot, loc }
    }

    /// Whether the decal is still moving.
    pub open spec fn spattering(self) -> bool {
        self.ttm >= 0
    }

    /// Whether the decal is removed by a tick of `dt` microseconds: it has
    /// stopped moving and this tick uses up the rest of its time to live.
    pub open spec fn dries_up(self, dt: u32) -> bool {
        !self.spattering() && self.ttl - dt <= 0
    }

    /// This decal after a tick of `dt` microseconds.
    ///
    /// While it moves, the time to move runs down and both coordinates grow
    /// by the sine of the spatter direction, so that it always travels along
    /// the diagonal.  After that only the time to live runs down.
    pub open spec fn advanced(self, dt: u32) -> Blood {
        if self.spattering() {
            let step = saturated(
                scaled(self.rot.sin as int, saturated(distance(BLOOD_SPATTER_SPEED as int, dt as int))),
            );
            Blood {
                ttm: (self.ttm - dt) as i64,
                loc: Vec2 {
                    x: saturated(self.loc.x + step) as i64,
                    y: saturated(self.loc.y + step) as i64,
                },
                ..self
            }
        } else {
            Blood { ttl: saturated(self.ttl - dt) as i64, ..self }
        }
    }

    /// This decal after `n` ticks of `dt` microseconds each.
    pub open spec fn after_ticks(self, dt: u32, n: nat) -> Blood
        decreases n,
    {
        if n == 0 {
            self
        } else {
            self.after_ticks(dt, (n - 1) as nat).advanced(dt)
        }
    }

    /// The number of ticks of `dt` microseconds for which a decal that
    /// still moves goes on moving: one for every full `dt` in its time to
    /// move, and one more.
    pub open spec fn ticks_moving(self, dt: u32) -> int {
        (self.ttm as int) / (dt as int) + 1
    }

    /// The number of ticks of `dt` microseconds that use up the time to
    /// live: the time to live divided by `dt`, rounded up.
    pub open spec fn ticks_decaying(self, dt: u32) -> int {
        (self.ttl + dt - 1) / (dt as int)
    }

    /// Creates a decal at `loc` that spatters along `rot`.
    pub fn new(id: u64, loc: Vec2, rot: Heading) -> (r: Blood)
        ensures
            r == Blood::fresh(id, loc, rot),
    {
        Blood { id, ttl: BLOOD_TTL, ttm: BLOOD_TTM, rot, loc }
    }

    /// Advances the decal by `dt` microseconds and reports whether it has to
    /// be removed.
    pub fn advance(&mut self, dt: u32) -> (expired: bool)
        ensures
            *final(self) == old(self).advanced(dt),
            expired == old(self).dries_up(dt),
    {
        if self.ttm >= 0 {
            self.ttm = self.ttm - dt as i64;
            let step: i64 = scale(self.rot.sin, travel(BLOOD_SPATTER_SPEED, dt));
            self.loc.x = offset_by(self.loc.x, step);
            self.loc.y = offset_by(self.loc.y, step);
            false
        } else {
            self.ttl = saturate(self.ttl as i128 - dt as i128);
            self.ttl <= 0
        }
    }
}

/// The decals of `bloods` that a tick of `dt` microseconds leaves in place,
/// each advanced by that tick, in their order.
pub open spec fn lingering(bloods: Seq<Blood>, dt: u32) -> Seq<Blood> {
    bloods.filter(|b: Blood| !b.dries_up(dt)).map_values(|b: Blood| b.advanced(dt))
}

/// The identities of the decals of `bloods` that a tick of `dt` microseconds
/// removes, in their order.
pub open spec fn dried(bloods: Seq<Blood>, dt: u32) -> Seq<u64> {
    bloods.filter(|b: Blood| b.dries_up(dt)).map_values(|b: Blood| b.id)
}

/// Taking one more decal into account appends it, advanced, to those that
/// stay, or its identity to those that go.
proof fn lemma_lingering_step(bloods: Seq<Blood>, i: int, dt: u32)
    requires
        0 <= i < bloods.len(),
    ensures
        lingering(bloods.take(i + 1), dt) == if bloods[i].dries_up(dt) {
            lingering(bloods.take(i), dt)
        } else {
            lingering(bloods.take(i), dt).push(bloods[i].advanced(dt))
        },
        dried(bloods.take(i + 1), dt) == if bloods[i].dries_up(dt) {
            dried(bloods.take(i), dt).push(bloods[i].id)
        } else {
            dried(bloods.take(i), dt)
        },
{
    let before = bloods.take(i);
    let stays = |b: Blood| !b.dries_up(dt);
    let goes = |b: Blood| b.dries_up(dt);
    assert(bloods.take(i + 1) =~= before.push(bloods[i]));
    before.lemma_filter_push(bloods[i], stays);
    before.lemma_filter_push(bloods[i], goes);
}

/// Adds a new decal at `loc` that spatters along `rot`.
pub fn add_blood_spatter(bloods: &mut Vec<Blood>, id: u64, loc: Vec2, rot: Heading)
    ensures
        final(bloods)@ == old(bloods)@.push(Blood::fresh(id, loc, rot)),
{
    bloods.push(Blood::new(id, loc, rot));
}

/// Advances every decal by `dt` microseconds and removes those whose time
/// is up.
///
/// The decals that stay keep their order.  The result lists the identities
/// of those removed, in the order in which they stood.
pub fn update_blood_spatter(bloods: &mut Vec<Blood>, dt: u32) -> (gone: Vec<u64>)
    ensures
        final(bloods)@ == lingering(old(bloods)@, dt),
        gone@ == dried(old(bloods)@, dt),
        final(bloods)@.len() + gone@.len() == old(bloods)@.len(),
{
    let mut kept: Vec<Blood> = Vec::new();
    let mut gone: Vec<u64> = Vec::new();
    let mut i: usize = 0;
    while i < bloods.len()
        invariant
            i <= bloods.len(),
            bloods@ == old(bloods)@,
            kept@ == lingering(bloods@.take(i as int), dt),
            gone@ == dried(bloods@.take(i as int), dt),
            kept@.len() + gone@.len() == i,
        decreases bloods.len() - i,
    {
        let mut blood: Blood = bloods[i];
        let expired: bool = blood.advance(dt);
        proof {
            lemma_lingering_step(bloods@, i as int, dt);
        }
        if expired {
            gone.push(blood.id);
        } else {
            kept.push(blood);
        }
        i += 1;
    }
    assert(bloods@.take(i as int) =~= bloods@);
    *bloods = kept;
    gone
}

/// Ticking `n` times and then `k` times is ticking `n + k` times.
proof fn lemma_ticks_add(b: Blood, dt: u32, n: nat, k: nat)
    ensures
        b.after_ticks(dt, n + k) == b.after_ticks(dt, n).after_ticks(dt, k),
    decreases k,
{
    if k > 0 {
        lemma_ticks_add(b, dt, n, (k - 1) as nat);
    }
}

/// While a decal moves, every tick takes `dt` from its time to move and
/// none from its time to live, and no tick removes it.  It moves through
/// its first `ttm / dt + 1` ticks and through no more.
pub proof fn lemma_decal_spatters(b: Blood, dt: u32, n: nat)
    requires
        b.spattering(),
        dt > 0,
        n <= b.ticks_moving(dt),
    ensures
        b.after_ticks(dt, n).ttm == b.ttm - n * dt,
        b.after_ticks(dt, n).ttl == b.ttl,
        b.after_ticks(dt, n).id == b.id,
        b.after_ticks(dt, n).rot == b.rot,
        b.after_ticks(dt, n).spattering() <==> n < b.ticks_moving(dt),
        n > 0 ==> !b.after_ticks(dt, (n - 1) as nat).dries_up(dt),
    decreases n,
{
    let moving = b.ticks_moving(dt);
    let d = dt as int;
    assert((moving - 1) * d <= b.ttm < moving * d) by (nonlinear_arith)
        requires
            moving == (b.ttm as int) / d + 1,
            b.ttm >= 0,
            d > 0,
    ;
    if n == 0 {
        assert(n * dt == 0) by (nonlinear_arith)
            requires
                n == 0,
        ;
    } else {
        lemma_decal_spatters(b, dt, (n - 1) as nat);
        assert(n * d == (n - 1) * d + d) by (nonlinear_arith);
        if n < moving {
            assert(n * d <= (moving - 1) * d) by (nonlinear_arith)
                requires
                    n <= moving - 1,
                    d > 0,
            ;
        }
    }
}

/// Once a decal has stopped moving, every tick takes `dt` from its time to
/// live and changes nothing else.
pub proof fn lemma_decal_decays(b: Blood, dt: u32, n: nat)
    requires
        !b.spattering(),
        b.ttl - n * dt >= i64::MIN,
    ensures
        b.after_ticks(dt, n) == (Blood { ttl: (b.ttl - n * dt) as i64, ..b }),
    decreases n,
{
    if n == 0 {
        assert(n * dt == 0) by (nonlinear_arith)
            requires
                n == 0,
        ;
    } else {
        assert(n * dt == (n - 1) * dt + dt) by (nonlinear_arith);
        lemma_decal_decays(b, dt, (n - 1) as nat);
    }
}

/// The life of a decal that is ticked at a fixed rate.
///
/// A decal that still moves and has time to live is removed by exactly one
/// tick: the one that follows its ticks of moving and completes its ticks of
/// decaying.  No earlier tick removes it.  Counted in time, that tick ends
/// after the time to move and the time to live have both gone by, and less
/// than two ticks later.
pub proof fn lemma_decal_lifetime(b: Blood, dt: u32)
    requires
        b.spattering(),
        b.ttl > 0,
        dt > 0,
    ensures
        b.ticks_moving(dt) >= 1,
        b.ticks_decaying(dt) >= 1,
        forall|k: nat|
            k + 1 < b.ticks_moving(dt) + b.ticks_decaying(dt) ==> !(#[trigger] b.after_ticks(
                dt,
                k,
            )).dries_up(dt),
        b.after_ticks(dt, (b.ticks_moving(dt) + b.ticks_decaying(dt) - 1) as nat).dries_up(dt),
        b.ttm + b.ttl < (b.ticks_moving(dt) + b.ticks_decaying(dt)) * dt < b.ttm + b.ttl + 2 * dt,
{
    let d = dt as int;
    let moving = b.ticks_moving(dt);
    let decaying = b.ticks_decaying(dt);
    assert((moving - 1) * d <= b.ttm < moving * d && moving >= 1) by (nonlinear_arith)
        requires
            moving == (b.ttm as int) / d + 1,
            b.ttm >= 0,
            d > 0,
    ;
    assert((decaying - 1) * d < b.ttl <= decaying * d && decaying >= 1) by (nonlinear_arith)
        requires
            decaying == (b.ttl + d - 1) / d,
            b.ttl > 0,
            d > 0,
    ;
    assert((moving + decaying) * d == moving * d + decaying * d) by (nonlinear_arith);
    assert((moving - 1) * d + (decaying - 1) * d == moving * d + decaying * d - 2 * d)
        by (nonlinear_arith);
    lemma_decal_spatters(b, dt, moving as nat);
    let stopped = b.after_ticks(dt, moving as nat);
    assert forall|k: nat| k + 1 < moving + decaying implies !(#[trigger] b.after_ticks(
        dt,
        k,
    )).dries_up(dt) by {
        if k < moving {
            lemma_decal_spatters(b, dt, k);
        } else {
            let rest = (k - moving) as nat;
            lemma_ticks_add(b, dt, moving as nat, rest);
            assert((rest + 1) * d <= (decaying - 1) * d) by (nonlinear_arith)
                requires
                    rest + 1 <= decaying - 1,
                    d > 0,
            ;
            assert((rest + 1) * d == rest * d + d) by (nonlinear_arith);
            lemma_decal_decays(stopped, dt, rest);
        }
    }
    let last = (decaying - 1) as nat;
    lemma_ticks_add(b, dt, moving as nat, last);
    assert((last + 1) * d == last * d + d) by (nonlinear_arith);
    lemma_decal_decays(stopped, dt, last);
}

} // verus!
