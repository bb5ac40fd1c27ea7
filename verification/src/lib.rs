//! Simulation core of a small top-down action game.
//!
//! A player walks through a tiled world and fires projectiles at patrolling
//! enemies; enemies that are hit leave short-lived blood decals behind.  The
//! crate holds the per-frame rules of that world and nothing of its drawing:
//! a host calls in once per frame with the elapsed time and the input state,
//! and reads back positions, rotations and the identities of the entities
//! that have to be created or removed.
//!
//! All quantities are integers.  Positions count thousandths of a world unit,
//! times count microseconds, angles count thousandths of a degree, and sines
//! and cosines count millionths.  Arithmetic that could leave the range of
//! `i64` saturates at its ends.

use vstd::prelude::*;

use crate::utils::{saturate, saturated, Vec2};

pub mod blood;
pub mod bullet;
pub mod game;
pub mod menu;
pub mod player;
pub mod utils;
pub mod zombie;

verus! {

/// Width of the viewport, and of one background tile, in position steps.
pub const GAME_WIDTH: i64 = 1_280_000;

/// Height of the viewport, and of one background tile, in position steps.
pub const GAME_HEIGHT: i64 = 720_000;

/// Distance that the player keeps from the left and right world edges.
pub const BUFFER_WIDTH: i64 = 50_000;

/// Distance that the player keeps from the lower and upper world edges.
pub const BUFFER_HEIGHT: i64 = 50_000;

/// Which part of the program is running.
#[derive(Clone, Copy, Debug, PartialEq, Eq, Hash, Structural)]
pub enum MainGameState {
    /// The main menu.
    Menu,
    /// The game itself.
    Game,
}

impl Default for MainGameState {
    fn default() -> (r: MainGameState)
        ensures
            r == MainGameState::Menu,
    {
        MainGameState::Menu
    }
}

/// The size of the world and the current camera offset.
///
/// The world is a grid of `width` by `height` tiles, each as large as the
/// viewport.  The offset says how far the camera has scrolled; the player's
/// movement sets it every frame and everything that is drawn reads it.
#[derive(Clone, Copy, Debug, PartialEq, Eq, Structural)]
pub struct GameDetails {
    pub width: u32,
    pub height: u32,
    pub offset_x: i64,
    pub offset_y: i64,
}

impl GameDetails {
    /// Horizontal extent of the world in position steps.
    pub open spec fn extent_x(self) -> int {
        self.width * GAME_WIDTH
    }

    /// Vertical extent of the world in position steps.
    pub open spec fn extent_y(self) -> int {
        self.height * GAME_HEIGHT
    }

    /// Whether `p` lies in the world: at or above zero and below the extent on
    /// both axes.
    pub open spec fn contains(self, p: Vec2) -> bool {
        &&& 0 <= p.x < self.extent_x()
        &&& 0 <= p.y < self.extent_y()
    }

    /// Where a world position is drawn: the position less the camera offset
    /// and less half the viewport.
    pub open spec fn on_screen(self, world: Vec2) -> Vec2 {
        Vec2 {
            x: saturated(world.x - self.offset_x - GAME_WIDTH / 2) as i64,
            y: saturated(world.y - self.offset_y - GAME_HEIGHT / 2) as i64,
        }
    }

    /// A world of `width` by `height` tiles with the camera at the origin.
    pub fn new(width: u32, height: u32) -> (r: GameDetails)
        ensures
            r == (GameDetails { width, height, offset_x: 0, offset_y: 0 }),
    {
        GameDetails { width, height, offset_x: 0, offset_y: 0 }
    }

    /// Horizontal extent of the world.
    pub fn max_x(&self) -> (r: i64)
        ensures
            r == self.extent_x(),
    {
        (self.width as i64) * GAME_WIDTH
    }

    /// Vertical extent of the world.
    pub fn max_y(&self) -> (r: i64)
        ensures
            r == self.extent_y(),
    {
        (self.height as i64) * GAME_HEIGHT
    }

    /// Tests whether a position lies in the world.
    pub fn in_world(&self, p: Vec2) -> (r: bool)
        ensures
            r == self.contains(p),
    {
        0 <= p.x && p.x < self.max_x() && 0 <= p.y && p.y < self.max_y()
    }

    /// Converts a world position to the position at which it is drawn.
    pub fn to_screen(&self, world: Vec2) -> (r: Vec2)
        ensures
            r == self.on_screen(world),
    {
        Vec2 {
            x: saturate(world.x as i128 - self.offset_x as i128 - (GAME_WIDTH / 2) as i128),
            y: saturate(world.y as i128 - self.offset_y as i128 - (GAME_HEIGHT / 2) as i128),
        }
    }
}

} // verus!
