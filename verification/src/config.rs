use vstd::prelude::*;

verus! {

/// Window size in pixels.
pub const WINDOW_W: u32 = 1100;
pub const WINDOW_H: u32 = 1100;

/// One lane is one tile wide.
pub const TILE: u32 = 60;
/// Lanes per road (three inbound, three outbound).
pub const LANES: usize = 6;
/// Road width: `TILE * LANES`.
pub const ROAD: u32 = 360;
/// Left / top edge of the road strip: `(WINDOW_W - ROAD) / 2`.
pub const IX: u32 = 370;
pub const IY: u32 = 370;

/// Vehicle body size: one tile square.
pub const VW: u32 = 60;
pub const VH: u32 = 60;

/// Speeds, in pixels per second.
pub const SPD_ALMOST_STOP: u32 = 30;
pub const SPD_VERY_SLOW: u32 = 60;
pub const SPD_SLOW: u32 = 100;
pub const SPD_NORMAL: u32 = 150;
pub const SPD_FAST: u32 = 200;

/// Forward hitbox lengths, in pixels ahead of the vehicle's front face.
pub const HB_BIG: u32 = 400;
pub const HB_MEDIUM: u32 = 300;
pub const HB_SMALL: u32 = 225;
pub const HB_VERY_SMALL: u32 = 100;
pub const HB_ALMOST_STOP: u32 = 51;
/// One pixel shorter than `HB_ALMOST_STOP`: if even this box overlaps,
/// the vehicle is physically blocked.
pub const HB_STOP: u32 = 50;
/// Number of hitbox levels tried, from `HB_BIG` down to `HB_STOP`.
pub const HB_LEVELS: usize = 6;

/// Half width of the forward hitbox: `VW / 2`.
pub const HB_HALF_W: u32 = 30;

/// Same-lane following gap that forces the slow speed: `4 * VW`.
pub const SAFE_DISTANCE: u32 = 240;
/// Same-lane gap under which the vehicle holds position: `VW`.
pub const STOP_GAP: u32 = 60;
/// Minimum same-lane distance at spawn: `2 * SAFE_DISTANCE`.
pub const SPAWN_GAP: u32 = 480;
/// Distance under which two cross-lane vehicles count as a crash: `0.7 * VH`.
pub const CRASH_DIST: u32 = 42;
/// Distance under which two cross-lane vehicles count as a close call: `2 * VH`.
pub const CLOSE_CALL_DIST: u32 = 120;

/// Off-screen margin of spawn and exit points.
pub const OFF: u32 = 80;

/// Intersection box bounds.
pub const IX_L: u32 = 370;
pub const IX_R: u32 = 730;
pub const IX_T: u32 = 370;
pub const IX_B: u32 = 730;

/// Range of the same-lane sensor: `HB_BIG + VH`.
pub const SENSOR_RANGE: u32 = 460;
/// Conflict range: `1.5 * TILE`.
pub const CONFLICT_DIST: u32 = 90;

/// A vehicle's speed may change at most once per this many nanoseconds (20 ms).
pub const VELOCITY_COOLDOWN_NS: u64 = 20_000_000;
/// Cooldown between two keyboard spawns (400 ms).
pub const KEY_CD_NS: u64 = 400_000_000;
/// Cooldown between two automatic random spawns (1200 ms).
pub const RAND_CD_NS: u64 = 1_200_000_000;

} // verus!
