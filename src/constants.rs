//! Fixed layout and tuning of the battlefield. Lengths are in thousandths of
//! a pixel, times in milliseconds.
use vstd::prelude::*;

verus! {

pub const MIN_LANE: usize = 0;
pub const MAX_LANE: usize = 2;
pub const LANE_COUNT: usize = 3;

/// How far players stand from their lane's target point.
pub const PLAYER_OFFSET_Y: i64 = 40_000;
pub const PLAYER_OFFSET_X: i64 = 40_000;

/// The range that counts as melee.
pub const MELEE_RANGE: i64 = PLAYER_OFFSET_Y + 2_000;

/// Enemy walking speed, in thousandths of a pixel per millisecond.
pub const ENEMY_SPEED: i64 = 60;

/// A player this close to their lane's spot has arrived.
pub const ARRIVAL_DISTANCE: i64 = 3_000;

/// Damage done to the obelisk is divided by this.
pub const OBELISK_DAMAGE_MODIFIER: usize = 5;

/// Health of the obelisk at the start of a run.
pub const OBELISK_MAX_HEALTH: usize = 1000;

/// A game speed below this many thousandths counts as paused.
pub const PAUSED_SPEED: i64 = 10;

/// Waves run in days of this many.
pub const WAVES_PER_DAY: usize = 4;

/// The y of every lane's target point and of every spawn point.
pub const TARGET_Y: i64 = -200_000;
pub const SPAWN_Y: i64 = 365_000;

/// A point on the battlefield.
#[derive(Clone, Copy, Debug, PartialEq, Eq)]
pub struct Position {
    pub x: i64,
    pub y: i64,
}

pub open spec fn lane_x(lane: int) -> int {
    if lane == 0 {
        -480_000
    } else if lane == 1 {
        -180_000
    } else {
        120_000
    }
}

/// Where enemies of `lane` walk to, and where its abilities land.
pub fn target_location(lane: usize) -> (r: Position)
    requires
        lane < LANE_COUNT,
    ensures
        r.x == lane_x(lane as int),
        r.y == TARGET_Y,
{
    let x: i64 = if lane == 0 {
        -480_000
    } else if lane == 1 {
        -180_000
    } else {
        120_000
    };
    Position { x, y: TARGET_Y }
}

/// Where enemies of `lane` appear.
pub fn spawn_location(lane: usize) -> (r: Position)
    requires
        lane < LANE_COUNT,
    ensures
        r.x == lane_x(lane as int),
        r.y == SPAWN_Y,
{
    let t = target_location(lane);
    Position { x: t.x, y: SPAWN_Y }
}

/// The y at which players stand.
pub const PLAYER_Y: i64 = TARGET_Y + PLAYER_OFFSET_Y;

} // verus!
