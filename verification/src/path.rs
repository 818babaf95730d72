//! Hard-coded waypoint paths for right-hand traffic on a six-lane grid.
//!
//! Lane centres across the road strip (370..730) are 400, 460, 520, 580,
//! 640 and 700. Spawn and exit points lie `OFF` = 80 px outside the road
//! strip: at 290 (top or left edge) and 810 (bottom or right edge).
//!
//! Inbound lanes use the right half of each arm's road:
//!   North arm (spawns at the top, travels south): x = 580 right, 640 forward, 700 left.
//!   South arm (spawns at the bottom, travels north): x = 520 right, 460 forward, 400 left.
//!   West arm (spawns at the left, travels east): y = 580 right, 640 forward, 700 left.
//!   East arm (spawns at the right, travels west): y = 520 right, 460 forward, 400 left.
//!
//! Outbound (exit) lanes are the left half of each arm's road, so every
//! path leaves along an outbound lane of the edge it exits through:
//!   North edge (leaving upwards): x = 400, 460, 520.
//!   South edge (leaving downwards): x = 580, 640, 700.
//!   West edge (leaving leftwards): y = 400, 460, 520.
//!   East edge (leaving rightwards): y = 580, 640, 700.

use vstd::prelude::*;
use crate::config::{IX, IY, OFF, ROAD, IX_L, IX_R, IX_T, IX_B};
use crate::vehicle::{Arm, Turn};

verus! {

/// Near edge of the spawn and exit band: `IX - OFF`.
pub open spec fn near_edge() -> u32 { 290 }

/// Far edge of the spawn and exit band: `IX + ROAD + OFF`.
pub open spec fn far_edge() -> u32 { 810 }

/// The waypoints of the path that a vehicle from `arm` taking `turn` follows.
pub open spec fn path_spec(arm: Arm, turn: Turn) -> Seq<(u32, u32)> {
    match (arm, turn) {
        (Arm::North, Turn::Right) => seq![(580u32, 290u32), (580u32, 580u32), (810u32, 580u32)],
        (Arm::North, Turn::Forward) => seq![(640u32, 290u32), (640u32, 810u32)],
        (Arm::North, Turn::Left) => seq![(700u32, 290u32), (700u32, 400u32), (290u32, 400u32)],
        (Arm::South, Turn::Right) => seq![(520u32, 810u32), (520u32, 520u32), (290u32, 520u32)],
        (Arm::South, Turn::Forward) => seq![(460u32, 810u32), (460u32, 290u32)],
        (Arm::South, Turn::Left) => seq![(400u32, 810u32), (400u32, 700u32), (810u32, 700u32)],
        (Arm::West, Turn::Right) => seq![(290u32, 580u32), (520u32, 580u32), (520u32, 290u32)],
        (Arm::West, Turn::Forward) => seq![(290u32, 640u32), (810u32, 640u32)],
        (Arm::West, Turn::Left) => seq![(290u32, 700u32), (700u32, 700u32), (700u32, 810u32)],
        (Arm::East, Turn::Right) => seq![(810u32, 520u32), (580u32, 520u32), (580u32, 810u32)],
        (Arm::East, Turn::Forward) => seq![(810u32, 460u32), (290u32, 460u32)],
        (Arm::East, Turn::Left) => seq![(810u32, 400u32), (400u32, 400u32), (400u32, 290u32)],
    }
}

/// The lane centre (x for North/South arms, y for East/West arms) on which
/// a vehicle from `arm` taking `turn` enters.
pub open spec fn inbound_lane(arm: Arm, turn: Turn) -> u32 {
    match arm {
        Arm::North => match turn { Turn::Right => 580, Turn::Forward => 640, Turn::Left => 700 },
        Arm::South => match turn { Turn::Right => 520, Turn::Forward => 460, Turn::Left => 400 },
        Arm::West => match turn { Turn::Right => 580, Turn::Forward => 640, Turn::Left => 700 },
        Arm::East => match turn { Turn::Right => 520, Turn::Forward => 460, Turn::Left => 400 },
    }
}

/// The spawn point of `arm` on lane `lane`: off-screen on the arm's own edge.
pub open spec fn spawn_point(arm: Arm, lane: u32) -> (u32, u32) {
    match arm {
        Arm::North => (lane, near_edge()),
        Arm::South => (lane, far_edge()),
        Arm::West => (near_edge(), lane),
        Arm::East => (far_edge(), lane),
    }
}

/// The screen edge through which a vehicle from `arm` taking `turn` leaves.
pub open spec fn exit_side(arm: Arm, turn: Turn) -> Arm {
    match arm {
        Arm::North => match turn { Turn::Right => Arm::East, Turn::Forward => Arm::South, Turn::Left => Arm::West },
        Arm::South => match turn { Turn::Right => Arm::West, Turn::Forward => Arm::North, Turn::Left => Arm::East },
        Arm::West => match turn { Turn::Right => Arm::North, Turn::Forward => Arm::East, Turn::Left => Arm::South },
        Arm::East => match turn { Turn::Right => Arm::South, Turn::Forward => Arm::West, Turn::Left => Arm::North },
    }
}

/// `p` lies on the off-screen band of the edge `side`.
pub open spec fn on_edge(p: (u32, u32), side: Arm) -> bool {
    match side {
        Arm::North => p.1 == near_edge(),
        Arm::South => p.1 == far_edge(),
        Arm::West => p.0 == near_edge(),
        Arm::East => p.0 == far_edge(),
    }
}

/// `p` lies on an outbound lane of the edge `side`: the lane centre across
/// the travel direction is one of the three on the left half of that arm's
/// road.
pub open spec fn on_outbound_lane(p: (u32, u32), side: Arm) -> bool {
    match side {
        Arm::North => p.0 == 400 || p.0 == 460 || p.0 == 520,
        Arm::South => p.0 == 580 || p.0 == 640 || p.0 == 700,
        Arm::West => p.1 == 400 || p.1 == 460 || p.1 == 520,
        Arm::East => p.1 == 580 || p.1 == 640 || p.1 == 700,
    }
}

/// `p` lies inside the intersection box.
pub open spec fn in_box_spec(p: (u32, u32)) -> bool {
    IX_L <= p.0 <= IX_R && IX_T <= p.1 <= IX_B
}

/// The waypoints of the path for `arm` and `turn`, in travel order.
pub fn get_path(arm: Arm, turn: Turn) -> (path: Vec<(u32, u32)>)
    ensures
        path@ == path_spec(arm, turn),
{
    match (arm, turn) {
        (Arm::North, Turn::Right) => vec![(580, 290), (580, 580), (810, 580)],
        (Arm::North, Turn::Forward) => vec![(640, 290), (640, 810)],
        (Arm::North, Turn::Left) => vec![(700, 290), (700, 400), (290, 400)],
        (Arm::South, Turn::Right) => vec![(520, 810), (520, 520), (290, 520)],
        (Arm::South, Turn::Forward) => vec![(460, 810), (460, 290)],
        (Arm::South, Turn::Left) => vec![(400, 810), (400, 700), (810, 700)],
        (Arm::West, Turn::Right) => vec![(290, 580), (520, 580), (520, 290)],
        (Arm::West, Turn::Forward) => vec![(290, 640), (810, 640)],
        (Arm::West, Turn::Left) => vec![(290, 700), (700, 700), (700, 810)],
        (Arm::East, Turn::Right) => vec![(810, 520), (580, 520), (580, 810)],
        (Arm::East, Turn::Forward) => vec![(810, 460), (290, 460)],
        (Arm::East, Turn::Left) => vec![(810, 400), (400, 400), (400, 290)],
    }
}

/// Every path starts off-screen on its arm's inbound lane, ends off-screen
/// on the edge its turn leads to, has two waypoints when going straight and
/// three when turning, runs along axis-aligned segments, turns only inside
/// the intersection box, and leaves along an outbound lane of its exit edge
/// (its last segment runs on that lane).
pub proof fn lemma_path_shape(arm: Arm, turn: Turn)
    ensures
        ({
            let p = path_spec(arm, turn);
            &&& p.len() == (if turn == Turn::Forward { 2int } else { 3int })
            &&& p[0] == spawn_point(arm, inbound_lane(arm, turn))
            &&& on_edge(p.last(), exit_side(arm, turn))
            &&& forall|i: int| 0 <= i < p.len() - 1 ==>
                    (#[trigger] p[i]).0 == p[i + 1].0 || p[i].1 == p[i + 1].1
            &&& forall|i: int| 0 < i < p.len() - 1 ==> in_box_spec(#[trigger] p[i])
            &&& on_outbound_lane(p[p.len() - 2], exit_side(arm, turn))
            &&& on_outbound_lane(p.last(), exit_side(arm, turn))
        }),
{
}

/// A vehicle never leaves against the traffic entering through its exit
/// edge: the lane it leaves on is none of that arm's inbound lanes.
pub proof fn lemma_exit_not_inbound(arm: Arm, turn: Turn, other: Turn)
    ensures
        ({
            let q = path_spec(arm, turn).last();
            let side = exit_side(arm, turn);
            (if side == Arm::North || side == Arm::South { q.0 } else { q.1 }) != inbound_lane(side, other)
        }),
{
}

/// Right-hand traffic: each arm's inbound lanes lie in the right half of its
/// road as seen in the direction of travel (east of the centre line for the
/// southbound North arm, west of it for the northbound South arm, south of it
/// for the eastbound West arm, north of it for the westbound East arm), and
/// on the road strip.
pub proof fn lemma_inbound_right_half(arm: Arm, turn: Turn)
    ensures
        IX < inbound_lane(arm, turn) < IX + ROAD,
        arm == Arm::North || arm == Arm::West ==> inbound_lane(arm, turn) > IX + ROAD / 2,
        arm == Arm::South || arm == Arm::East ==> inbound_lane(arm, turn) < IY + ROAD / 2,
{
}

/// No two lanes share a spawn point.
pub proof fn lemma_spawn_points_distinct(a1: Arm, t1: Turn, a2: Arm, t2: Turn)
    requires
        a1 != a2 || t1 != t2,
    ensures
        path_spec(a1, t1)[0] != path_spec(a2, t2)[0],
{
}

/// The band edges are `OFF` outside the road strip.
pub proof fn lemma_edges()
    ensures
        near_edge() == IX - OFF,
        far_edge() == IX + ROAD + OFF,
{
}

} // verus!
