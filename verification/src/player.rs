//! The player: movement inside the world, the camera that follows, aiming
//! and firing.

use vstd::prelude::*;

use crate::bullet::Bullet;
use crate::utils::{distance, offset_back, offset_by, saturate, saturated, travel, Heading, Vec2};
use crate::{GameDetails, BUFFER_HEIGHT, BUFFER_WIDTH, GAME_HEIGHT, GAME_WIDTH};

verus! {

/// Speed of the player in world units per second.
pub const PLAYER_MOVE_SPEED: i64 = 150;

/// The player.
#[derive(Clone, Copy, Debug, PartialEq, Eq, Structural)]
pub struct Player {
    /// Position in the world.
    pub loc: Vec2,
    /// Where the pointer was last seen, relative to the centre of the
    /// viewport, with y pointing up.
    pub mouse: Vec2,
    /// Full extent of the player's rectangle.
    pub hit_box: Vec2,
    /// Where the player is drawn, relative to the centre of the viewport.
    pub screen: Vec2,
}

/// The four movement keys, each `true` while held down.
#[derive(Clone, Copy, Debug, PartialEq, Eq, Structural)]
pub struct Keys {
    pub up: bool,
    pub down: bool,
    pub left: bool,
    pub right: bool,
}

/// A coordinate kept inside the world: raised to `low` where it is below,
/// then lowered to `high` where it is at or above.
pub open spec fn clamped(v: int, low: int, high: int) -> int {
    let raised = if v < low {
        low
    } else {
        v
    };
    if raised >= high {
        high
    } else {
        raised
    }
}

/// The camera offset along one axis for a player at `p` in a world of the
/// given extent, seen through a viewport of size `view`.
///
/// Within half a viewport of the lower edge the camera rests at zero;
/// within half a viewport of the upper edge it rests at the far end; in
/// between it keeps the player in the centre.
pub open spec fn camera_offset(p: int, extent: int, view: int) -> int {
    if p <= view / 2 {
        0
    } else if p >= extent - view / 2 {
        extent - view
    } else {
        p - view / 2
    }
}

/// Where a player at `p` is drawn along one axis, relative to the centre of
/// the viewport.
pub open spec fn camera_place(p: int, extent: int, view: int) -> int {
    if p <= view / 2 {
        p - view / 2
    } else if p >= extent - view / 2 {
        p - (extent - view / 2)
    } else {
        0
    }
}

/// Where the pointer points, given its position in the window: relative to
/// the centre of the viewport, y turned upward.
pub open spec fn pointer_target(pointer: Vec2) -> Vec2 {
    Vec2 {
        x: saturated(pointer.x - GAME_WIDTH / 2) as i64,
        y: saturated(GAME_HEIGHT / 2 - pointer.y) as i64,
    }
}

/// The world's details with the camera set for a player at `loc`.
pub open spec fn camera_after(loc: Vec2, details: GameDetails) -> GameDetails {
    GameDetails {
        offset_x: camera_offset(loc.x as int, details.extent_x(), GAME_WIDTH as int) as i64,
        offset_y: camera_offset(loc.y as int, details.extent_y(), GAME_HEIGHT as int) as i64,
        ..details
    }
}

impl Player {
    /// The player as the game begins.
    pub open spec fn initial() -> Player {
        Player {
            loc: Vec2 { x: 100_000, y: 100_000 },
            mouse: Vec2 { x: 0, y: 0 },
            hit_box: Vec2 { x: 150_000, y: 150_000 },
            screen: Vec2 { x: 100_000, y: 100_000 },
        }
    }

    /// The position that the keys ask for after `dt` microseconds, before
    /// the world's edges are taken into account.
    pub open spec fn walked(self, keys: Keys, dt: u32) -> Vec2 {
        let step = saturated(distance(PLAYER_MOVE_SPEED as int, dt as int));
        let up = if keys.up {
            saturated(self.loc.y + step)
        } else {
            self.loc.y as int
        };
        let left = if keys.left {
            saturated(self.loc.x - step)
        } else {
            self.loc.x as int
        };
        Vec2 {
            x: (if keys.right {
                saturated(left + step)
            } else {
                left
            }) as i64,
            y: (if keys.down {
                saturated(up - step)
            } else {
                up
            }) as i64,
        }
    }

    /// The player's position after a move: where the keys lead, kept at
    /// least a buffer away from every edge of the world.
    pub open spec fn moved(self, keys: Keys, dt: u32, details: GameDetails) -> Vec2 {
        let to = self.walked(keys, dt);
        Vec2 {
            x: clamped(
                to.x as int,
                BUFFER_WIDTH as int,
                details.extent_x() - BUFFER_WIDTH,
            ) as i64,
            y: clamped(
                to.y as int,
                BUFFER_HEIGHT as int,
                details.extent_y() - BUFFER_HEIGHT,
            ) as i64,
        }
    }

    /// The player after a move: at its new position, drawn where the camera
    /// puts it, aiming as before.
    pub open spec fn after_move(self, keys: Keys, dt: u32, details: GameDetails) -> Player {
        let loc = self.moved(keys, dt, details);
        Player {
            loc,
            screen: Vec2 {
                x: camera_place(loc.x as int, details.extent_x(), GAME_WIDTH as int) as i64,
                y: camera_place(loc.y as int, details.extent_y(), GAME_HEIGHT as int) as i64,
            },
            ..self
        }
    }

    /// The player after a run of pointer positions: aiming at the last of
    /// them, or as before where there is none.
    pub open spec fn after_pointer(self, positions: Seq<Vec2>) -> Player {
        Player {
            mouse: if positions.len() == 0 {
                self.mouse
            } else {
                pointer_target(positions.last())
            },
            ..self
        }
    }

    /// The vector from the pointer to where the player is drawn: a shot
    /// leaves along the direction of this vector, turned back a quarter turn.
    pub open spec fn recoil(self) -> Vec2 {
        Vec2 {
            x: saturated(self.screen.x - self.mouse.x) as i64,
            y: saturated(self.screen.y - self.mouse.y) as i64,
        }
    }

    /// The vector from where the player is drawn to the pointer: the player
    /// is drawn facing along it.
    pub open spec fn gaze(self) -> Vec2 {
        Vec2 {
            x: saturated(self.mouse.x - self.screen.x) as i64,
            y: saturated(self.mouse.y - self.screen.y) as i64,
        }
    }

    /// Computes [`Player::recoil`].
    pub fn fire_direction(&self) -> (r: Vec2)
        ensures
            r == self.recoil(),
    {
        Vec2 {
            x: offset_back(self.screen.x, self.mouse.x),
            y: offset_back(self.screen.y, self.mouse.y),
        }
    }

    /// Computes [`Player::gaze`].
    pub fn look_direction(&self) -> (r: Vec2)
        ensures
            r == self.gaze(),
    {
        Vec2 {
            x: offset_back(self.mouse.x, self.screen.x),
            y: offset_back(self.mouse.y, self.screen.y),
        }
    }
}

/// Creates the player at its starting position.
pub fn create_player() -> (player: Player)
    ensures
        player == Player::initial(),
{
    Player {
        loc: Vec2 { x: 100_000, y: 100_000 },
        mouse: Vec2 { x: 0, y: 0 },
        hit_box: Vec2 { x: 150_000, y: 150_000 },
        screen: Vec2 { x: 100_000, y: 100_000 },
    }
}

/// Keeps a coordinate inside the world.
fn clamp(v: i64, low: i64, high: i64) -> (r: i64)
    ensures
        r == clamped(v as int, low as int, high as int),
{
    let raised: i64 = if v < low {
        low
    } else {
        v
    };
    if raised >= high {
        high
    } else {
        raised
    }
}

/// Moves the player as the keys say and lets the camera follow.
///
/// The player walks for `dt` microseconds along each axis whose key is held
/// and stops a buffer away from the edges of the world.  The camera offset
/// in `details` is then set anew from the player's position, and the player
/// is drawn where that offset puts it.
///
/// In a world of at least one tile along an axis the player ends up between
/// the two buffers on that axis, and the camera between zero and the last
/// position that still shows nothing but world.
pub fn player_mover(player: &mut Player, keys: Keys, dt: u32, details: &mut GameDetails)
    ensures
        *final(player) == old(player).after_move(keys, dt, *old(details)),
        *final(details) == camera_after(final(player).loc, *old(details)),
        final(player).screen == final(details).on_screen(final(player).loc),
        old(details).width >= 1 ==> BUFFER_WIDTH <= final(player).loc.x <= old(details).extent_x()
            - BUFFER_WIDTH,
        old(details).height >= 1 ==> BUFFER_HEIGHT <= final(player).loc.y <= old(
            details,
        ).extent_y() - BUFFER_HEIGHT,
        old(details).width >= 1 ==> 0 <= final(details).offset_x <= old(details).extent_x()
            - GAME_WIDTH,
        old(details).height >= 1 ==> 0 <= final(details).offset_y <= old(details).extent_y()
            - GAME_HEIGHT,
{
    let step: i64 = travel(PLAYER_MOVE_SPEED, dt);
    if keys.up {
        player.loc.y = offset_by(player.loc.y, step);
    }
    if keys.down {
        player.loc.y = offset_back(player.loc.y, step);
    }
    if keys.left {
        player.loc.x = offset_back(player.loc.x, step);
    }
    if keys.right {
        player.loc.x = offset_by(player.loc.x, step);
    }
    let max_x: i64 = details.max_x();
    let max_y: i64 = details.max_y();
    player.loc.x = clamp(player.loc.x, BUFFER_WIDTH, max_x - BUFFER_WIDTH);
    player.loc.y = clamp(player.loc.y, BUFFER_HEIGHT, max_y - BUFFER_HEIGHT);

    if player.loc.x <= GAME_WIDTH / 2 {
        player.screen.x = player.loc.x - GAME_WIDTH / 2;
        details.offset_x = 0;
    } else if player.loc.x >= max_x - GAME_WIDTH / 2 {
        player.screen.x = player.loc.x - (max_x - GAME_WIDTH / 2);
        details.offset_x = max_x - GAME_WIDTH;
    } else {
        player.screen.x = 0;
        details.offset_x = player.loc.x - GAME_WIDTH / 2;
    }

    if player.loc.y <= GAME_HEIGHT / 2 {
        player.screen.y = player.loc.y - GAME_HEIGHT / 2;
        details.offset_y = 0;
    } else if player.loc.y >= max_y - GAME_HEIGHT / 2 {
        player.screen.y = player.loc.y - (max_y - GAME_HEIGHT / 2);
        details.offset_y = max_y - GAME_HEIGHT;
    } else {
        player.screen.y = 0;
        details.offset_y = player.loc.y - GAME_HEIGHT / 2;
    }
}

/// Follows the pointer: after a run of pointer positions the player aims at
/// the last of them.  Without any the aim stays where it was.
pub fn track_mouse(player: &mut Player, positions: &Vec<Vec2>)
    ensures
        *final(player) == old(player).after_pointer(positions@),
{
    let mut i: usize = 0;
    while i < positions.len()
        invariant
            i <= positions.len(),
            *player == old(player).after_pointer(positions@.take(i as int)),
        decreases positions.len() - i,
    {
        let at: Vec2 = positions[i];
        player.mouse.x = saturate(at.x as i128 - (GAME_WIDTH / 2) as i128);
        player.mouse.y = saturate((GAME_HEIGHT / 2) as i128 - at.y as i128);
        i += 1;
    }
}

/// The projectile that a shot along `aim` creates: it starts at the
/// player's position and travels along the aim, normalized and turned back
/// a quarter turn, with the standard hit box and a damage of one.
pub open spec fn shot(player: Player, aim: Heading, id: u64) -> Bullet {
    Bullet {
        id,
        loc: player.loc,
        angle: aim.normalized().quarter_behind(),
        hit_box: Vec2 { x: 10_000, y: 20_000 },
        damage: 1,
    }
}

/// Fires when the button has just been pressed.
///
/// `aim` is the direction of [`Player::fire_direction`].  The identity is
/// used only when a projectile is created.
pub fn fire_controller(player: &Player, just_pressed: bool, aim: Heading, id: u64) -> (fired: Option<
    Bullet,
>)
    ensures
        fired == if just_pressed {
            Some(shot(*player, aim, id))
        } else {
            None
        },
{
    if just_pressed {
        Some(
            Bullet {
                id,
                loc: player.loc,
                angle: aim.normalize().turn_behind(),
                hit_box: Vec2 { x: 10_000, y: 20_000 },
                damage: 1,
            },
        )
    } else {
        None
    }
}

} // verus!
