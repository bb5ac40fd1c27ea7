//! The game as a whole: one frame of the simulation in its fixed order, the
//! background tiles, sprite animation and the way back to the menu.

use rand::rngs::StdRng;
use vstd::prelude::*;

use crate::blood::{dried, lingering, update_blood_spatter, Blood};
use crate::bullet::{
    bullet_collision, bullet_ids, bullet_mover, casualties, flown, inside, killed,
    lemma_removed_when_health_is_used_up, outside, spent, spent_ids, sprayed, strikes, survivors,
    unspent, Bullet, Collisions, Hit,
};
use crate::menu::{MenuCommand, MenuState};
use crate::player::{
    camera_after, create_player, fire_controller, player_mover, shot, track_mouse, Keys, Player,
};
use crate::utils::{saturate, saturated, Heading, Vec2};
use crate::zombie::{
    lemma_patrol_arrives_exactly, marched, recruit, views, zombie_checker, zombie_mover, Zombie,
    ZombieView,
};
use crate::{GameDetails, MainGameState, BUFFER_HEIGHT, BUFFER_WIDTH, GAME_HEIGHT, GAME_WIDTH};

verus! {

/// The frames of a sprite sheet that an animation runs through.
#[derive(Clone, Copy, Debug, PartialEq, Eq, Structural)]
pub struct AnimationIndices {
    pub first: usize,
    pub last: usize,
}

impl AnimationIndices {
    /// The frame shown after `index`: the first after the last, else the next.
    pub open spec fn following(self, index: usize) -> int {
        if index == self.last {
            self.first as int
        } else {
            index + 1
        }
    }
}

/// Steps an animation: when its timer has just run out, the sprite shows the
/// next frame, and the first again after the last.  Otherwise the frame stays.
pub fn game_update(indices: &AnimationIndices, just_finished: bool, index: usize) -> (shown: usize)
    requires
        index < usize::MAX || index == indices.last || !just_finished,
    ensures
        shown == if just_finished {
            indices.following(index)
        } else {
            index as int
        },
{
    if just_finished {
        if index == indices.last {
            indices.first
        } else {
            index + 1
        }
    } else {
        index
    }
}

/// Decides whether to leave the game: pressing escape leads back to the
/// main menu.
pub fn menu_return_check(escape_pressed: bool) -> (command: MenuCommand)
    ensures
        command == if escape_pressed {
            MenuCommand::Enter(MainGameState::Menu, MenuState::Main)
        } else {
            MenuCommand::Stay
        },
{
    if escape_pressed {
        MenuCommand::Enter(MainGameState::Menu, MenuState::Main)
    } else {
        MenuCommand::Stay
    }
}

/// One tile of the background, by its column and row in the world's grid.
#[derive(Clone, Copy, Debug, PartialEq, Eq, Structural)]
pub struct BackgroundTile {
    pub x: u32,
    pub y: u32,
}

impl BackgroundTile {
    /// Where the tile is drawn: its place in the grid less the camera offset.
    pub open spec fn placed(self, details: GameDetails) -> Vec2 {
        Vec2 {
            x: saturated(self.x * GAME_WIDTH - details.offset_x) as i64,
            y: saturated(self.y * GAME_HEIGHT - details.offset_y) as i64,
        }
    }
}

/// Places a background tile on the screen.
pub fn background_mapper(tile: BackgroundTile, details: &GameDetails) -> (at: Vec2)
    ensures
        at == tile.placed(*details),
{
    assert(0 <= tile.x * GAME_WIDTH <= 0xffff_ffff * 1_280_000) by (nonlinear_arith)
        requires
            0 <= tile.x <= 0xffff_ffff,
            GAME_WIDTH == 1_280_000,
    ;
    assert(0 <= tile.y * GAME_HEIGHT <= 0xffff_ffff * 720_000) by (nonlinear_arith)
        requires
            0 <= tile.y <= 0xffff_ffff,
            GAME_HEIGHT == 720_000,
    ;
    Vec2 {
        x: saturate((tile.x as i128) * (GAME_WIDTH as i128) - details.offset_x as i128),
        y: saturate((tile.y as i128) * (GAME_HEIGHT as i128) - details.offset_y as i128),
    }
}

/// Lays out the background: one tile for every cell of the world's grid,
/// column by column and within a column row by row.
pub fn game_setup(details: &GameDetails) -> (tiles: Vec<BackgroundTile>)
    ensures
        tiles@.len() == details.width * details.height,
        forall|k: int|
            0 <= k < tiles@.len() ==> #[trigger] tiles@[k] == (BackgroundTile {
                x: (k / details.height as int) as u32,
                y: (k % details.height as int) as u32,
            }),
{
    let mut tiles: Vec<BackgroundTile> = Vec::new();
    let ghost height = details.height as int;
    let mut x: u32 = 0;
    while x < details.width
        invariant
            x <= details.width,
            height == details.height,
            tiles@.len() == x * height,
            forall|k: int|
                0 <= k < tiles@.len() ==> #[trigger] tiles@[k] == (BackgroundTile {
                    x: (k / height) as u32,
                    y: (k % height) as u32,
                }),
        decreases details.width - x,
    {
        let mut y: u32 = 0;
        while y < details.height
            invariant
                x < details.width,
                y <= details.height,
                height == details.height,
                tiles@.len() == x * height + y,
                forall|k: int|
                    0 <= k < tiles@.len() ==> #[trigger] tiles@[k] == (BackgroundTile {
                        x: (k / height) as u32,
                        y: (k % height) as u32,
                    }),
            decreases details.height - y,
        {
            proof {
                let k = x * height + y;
                vstd::arithmetic::div_mod::lemma_fundamental_div_mod_converse(
                    k,
                    height,
                    x as int,
                    y as int,
                );
            }
            tiles.push(BackgroundTile { x, y });
            y += 1;
        }
        assert((x + 1) * height == x * height + height) by (nonlinear_arith);
        x += 1;
    }
    tiles
}

/// Everything that lives in the world.
#[derive(Debug)]
pub struct World {
    pub details: GameDetails,
    pub player: Player,
    pub zombies: Vec<Zombie>,
    pub bullets: Vec<Bullet>,
    pub bloods: Vec<Blood>,
}

/// What the world is, with its collections as sequences.
pub struct WorldView {
    pub details: GameDetails,
    pub player: Player,
    pub zombies: Seq<ZombieView>,
    pub bullets: Seq<Bullet>,
    pub bloods: Seq<Blood>,
}

impl View for World {
    type V = WorldView;

    open spec fn view(&self) -> WorldView {
        WorldView {
            details: self.details,
            player: self.player,
            zombies: views(self.zombies@),
            bullets: self.bullets@,
            bloods: self.bloods@,
        }
    }
}

impl World {
    /// A world of `width` by `height` tiles as the game begins: the player at
    /// its starting position, the camera at the origin, and nothing else yet.
    pub fn new(width: u32, height: u32) -> (world: World)
        ensures
            world@ == (WorldView {
                details: GameDetails { width, height, offset_x: 0, offset_y: 0 },
                player: Player::initial(),
                zombies: Seq::empty(),
                bullets: Seq::empty(),
                bloods: Seq::empty(),
            }),
            width >= 1 && height >= 1 ==> world@.well_formed(),
    {
        let world = World {
            details: GameDetails::new(width, height),
            player: create_player(),
            zombies: Vec::new(),
            bullets: Vec::new(),
            bloods: Vec::new(),
        };
        assert(world@.zombies =~= Seq::empty());
        assert(width >= 1 && height >= 1 ==> world.details.extent_x() >= GAME_WIDTH
            && world.details.extent_y() >= GAME_HEIGHT) by (nonlinear_arith)
            requires
                world.details.extent_x() == width * GAME_WIDTH,
                world.details.extent_y() == height * GAME_HEIGHT,
                GAME_WIDTH > 0,
                GAME_HEIGHT > 0,
        ;
        world
    }
}

/// What the host hands over for one frame.
#[derive(Debug)]
pub struct Input {
    /// Time since the last frame, in microseconds.
    pub dt: u32,
    /// The movement keys that are held down.
    pub keys: Keys,
    /// The positions that the pointer has passed through, oldest first.
    pub pointer: Vec<Vec2>,
    /// Whether the fire button has just been pressed.
    pub fire: bool,
    /// The direction of the player's [`Player::fire_direction`].
    pub aim: Heading,
    /// The identity for a projectile, should one be fired.
    pub bullet_id: u64,
    /// The identities for two enemies, should they be spawned.
    pub zombie_ids: (u64, u64),
}

/// What one frame has done besides changing the world: what the host has to
/// create and to remove.
#[derive(Debug)]
pub struct Frame {
    /// Every hit, with the blood that it draws.
    pub hits: Vec<Hit>,
    /// Identities of the projectiles that have left the world.
    pub bullets_lost: Vec<u64>,
    /// Identities of the projectiles that have hit an enemy.
    pub bullets_spent: Vec<u64>,
    /// Identities of the enemies killed.
    pub zombies_gone: Vec<u64>,
    /// Identities of the decals whose time is up.
    pub bloods_gone: Vec<u64>,
    /// Whether a projectile was fired; it is the last of the world's.
    pub fired: bool,
    /// Whether two enemies were spawned; they are all the world's.
    pub spawned: bool,
}

impl WorldView {
    /// The player after this frame's pointer positions and movement.
    pub open spec fn player_after(self, input: Input) -> Player {
        self.player.after_pointer(input.pointer@).after_move(input.keys, input.dt, self.details)
    }

    /// The world's details after this frame's movement.
    pub open spec fn details_after(self, input: Input) -> GameDetails {
        camera_after(self.player_after(input).loc, self.details)
    }

    /// The projectiles that are still in the world after this frame's flight.
    pub open spec fn bullets_in_flight(self, input: Input) -> Seq<Bullet> {
        inside(flown(self.bullets, input.dt), self.details_after(input))
    }

    /// The enemies after this frame's patrol.
    pub open spec fn zombies_on_patrol(self, input: Input) -> Seq<ZombieView> {
        marched(self.zombies, input.dt)
    }

    /// The enemies that survive this frame's collisions.
    pub open spec fn zombies_left(self, input: Input) -> Seq<ZombieView> {
        survivors(self.bullets_in_flight(input), self.zombies_on_patrol(input))
    }

    /// The world after one frame.
    ///
    /// The player follows the pointer and moves, and the camera with it.
    /// Then the enemies patrol, the projectiles fly, projectiles and enemies
    /// collide, and the decals age.  Last of all a projectile is added if
    /// one was fired, and two enemies if none is left.
    pub open spec fn stepped(self, input: Input) -> WorldView {
        let player = self.player_after(input);
        let left = unspent(self.bullets_in_flight(input), self.zombies_on_patrol(input));
        WorldView {
            details: self.details_after(input),
            player,
            zombies: if self.zombies_left(input).len() == 0 {
                seq![recruit(input.zombie_ids.0, 0), recruit(input.zombie_ids.1, 3)]
            } else {
                self.zombies_left(input)
            },
            bullets: if input.fire {
                left.push(shot(player, input.aim, input.bullet_id))
            } else {
                left
            },
            bloods: lingering(self.bloods, input.dt),
        }
    }
}

impl WorldView {
    /// What holds of the world between frames.
    ///
    /// The world has at least one tile each way and the player keeps a
    /// buffer away from its edges.  Every enemy has health left and heads to
    /// a waypoint of its route.  Every projectile is in the world and takes
    /// health rather than giving it.  Every decal has time left to live.
    pub open spec fn well_formed(self) -> bool {
        &&& self.details.width >= 1
        &&& self.details.height >= 1
        &&& BUFFER_WIDTH <= self.player.loc.x <= self.details.extent_x() - BUFFER_WIDTH
        &&& BUFFER_HEIGHT <= self.player.loc.y <= self.details.extent_y() - BUFFER_HEIGHT
        &&& forall|i: int|
            0 <= i < self.zombies.len() ==> (#[trigger] self.zombies[i]).well_formed()
                && self.zombies[i].health > 0
        &&& forall|i: int|
            0 <= i < self.bullets.len() ==> self.details.contains((#[trigger] self.bullets[i]).loc)
                && self.bullets[i].damage >= 0
        &&& forall|i: int| 0 <= i < self.bloods.len() ==> (#[trigger] self.bloods[i]).ttl > 0
    }
}

/// A frame keeps the world well formed, whatever the input.
///
/// In particular no enemy is left in the world without health, no enemy
/// heads to a waypoint that its route does not have, no projectile stays
/// outside the world, and no decal outlives its time.
pub proof fn lemma_frame_keeps_the_world_well_formed(world: WorldView, input: Input)
    requires
        world.well_formed(),
    ensures
        world.stepped(input).well_formed(),
{
    let after = world.stepped(input);
    let details = world.details_after(input);
    let player = world.player_after(input);
    assert(details.extent_x() == world.details.extent_x());
    assert(details.extent_y() == world.details.extent_y());
    assert(details.extent_x() >= GAME_WIDTH && details.extent_y() >= GAME_HEIGHT) by (nonlinear_arith)
        requires
            details.extent_x() == details.width * GAME_WIDTH,
            details.extent_y() == details.height * GAME_HEIGHT,
            details.width >= 1,
            details.height >= 1,
            GAME_WIDTH > 0,
            GAME_HEIGHT > 0,
    ;

    let walked = world.zombies_on_patrol(input);
    assert forall|i: int| 0 <= i < walked.len() implies (#[trigger] walked[i]).well_formed()
        && walked[i].health > 0 by {
        lemma_patrol_arrives_exactly(world.zombies[i], input.dt);
    }

    let moved = flown(world.bullets, input.dt);
    let flying = world.bullets_in_flight(input);
    let stays = |b: Bullet| details.contains(b.loc);
    assert forall|i: int| 0 <= i < flying.len() implies details.contains(
        (#[trigger] flying[i]).loc,
    ) && flying[i].damage >= 0 by {
        moved.lemma_filter_pred(stays, i);
        assert(flying.contains(flying[i]));
        moved.lemma_filter_contains_rev(stays, flying[i]);
        let from = choose|from: int| 0 <= from < moved.len() && moved[from] == flying[i];
        assert(moved[from] == world.bullets[from].advanced(input.dt));
    }

    let lives = |z: ZombieView| !killed(flying, z, flying.len());
    let kept = walked.filter(lives);
    let left = world.zombies_left(input);
    assert forall|k: int| 0 <= k < left.len() implies (#[trigger] left[k]).well_formed()
        && left[k].health > 0 by {
        walked.lemma_filter_pred(lives, k);
        assert(kept.contains(kept[k]));
        walked.lemma_filter_contains_rev(lives, kept[k]);
        lemma_removed_when_health_is_used_up(flying, kept[k], flying.len());
    }

    let unhit = |b: Bullet| !spent(b, walked);
    let passed = unspent(flying, walked);
    assert forall|i: int| 0 <= i < passed.len() implies details.contains(
        (#[trigger] passed[i]).loc,
    ) && passed[i].damage >= 0 by {
        assert(passed.contains(passed[i]));
        flying.lemma_filter_contains_rev(unhit, passed[i]);
    }

    let stay = |b: Blood| !b.dries_up(input.dt);
    let wet = world.bloods.filter(stay);
    assert forall|i: int| 0 <= i < after.bloods.len() implies (#[trigger] after.bloods[i]).ttl
        > 0 by {
        world.bloods.lemma_filter_pred(stay, i);
        assert(wet.contains(wet[i]));
        world.bloods.lemma_filter_contains_rev(stay, wet[i]);
    }
}

/// Runs one frame of the simulation.
///
/// The steps come in a fixed order: the player, the enemies, the
/// projectiles, the collisions, the decals.  What a frame creates takes part
/// from the next frame on: the projectile that is fired and the enemies that
/// are spawned are added last, and the blood of a hit is left to the host,
/// which reads it from the result.
///
/// Before the call the host sets the bearing of every enemy and the aim.
pub fn tick(world: &mut World, input: &Input, rng: &mut StdRng) -> (frame: Frame)
    ensures
        final(world)@ == old(world)@.stepped(*input),
        old(world)@.well_formed() ==> final(world)@.well_formed(),
        frame.bullets_lost@ == bullet_ids(
            outside(flown(old(world)@.bullets, input.dt), old(world)@.details_after(*input)),
        ),
        frame.bullets_spent@ == spent_ids(
            old(world)@.bullets_in_flight(*input),
            old(world)@.zombies_on_patrol(*input),
        ),
        frame.zombies_gone@ == casualties(
            old(world)@.bullets_in_flight(*input),
            old(world)@.zombies_on_patrol(*input),
        ),
        frame.bloods_gone@ == dried(old(world)@.bloods, input.dt),
        frame.fired == input.fire,
        frame.spawned == (old(world)@.zombies_left(*input).len() == 0),
        frame.hits@.len() == strikes(
            old(world)@.bullets_in_flight(*input),
            old(world)@.zombies_on_patrol(*input),
            old(world)@.bullets_in_flight(*input).len(),
        ).len(),
        forall|k: int|
            0 <= k < frame.hits@.len() ==> (#[trigger] frame.hits@[k]).strike == strikes(
                old(world)@.bullets_in_flight(*input),
                old(world)@.zombies_on_patrol(*input),
                old(world)@.bullets_in_flight(*input).len(),
            )[k],
        forall|k: int| 0 <= k < frame.hits@.len() ==> sprayed((#[trigger] frame.hits@[k]).jitters@),
{
    proof {
        if world@.well_formed() {
            lemma_frame_keeps_the_world_well_formed(world@, *input);
        }
    }
    track_mouse(&mut world.player, &input.pointer);
    player_mover(&mut world.player, input.keys, input.dt, &mut world.details);
    zombie_mover(&mut world.zombies, input.dt);
    let bullets_lost: Vec<u64> = bullet_mover(&mut world.bullets, input.dt, &world.details);
    let done: Collisions = bullet_collision(&mut world.bullets, &mut world.zombies, rng);
    let bloods_gone: Vec<u64> = update_blood_spatter(&mut world.bloods, input.dt);
    let fired: bool = match fire_controller(&world.player, input.fire, input.aim, input.bullet_id) {
        Some(bullet) => {
            world.bullets.push(bullet);
            true
        },
        None => false,
    };
    let spawned: bool = zombie_checker(&mut world.zombies, input.zombie_ids.0, input.zombie_ids.1);
    Frame {
        hits: done.hits,
        bullets_lost,
        bullets_spent: done.bullets_gone,
        zombies_gone: done.zombies_gone,
        bloods_gone,
        fired,
        spawned,
    }
}

} // verus!
