//! The speed decision: hitbox ladder and same-lane following.
//!
//! Each frame a vehicle projects a forward hitbox of decreasing length and
//! takes the speed of the first length whose box overlaps no other vehicle:
//!
//!   level 0: BIG   (400 px) -> FAST        (200 px/s)
//!   level 1: MED   (300 px) -> FAST        (200 px/s)
//!   level 2: SMALL (225 px) -> SLOW        (100 px/s)
//!   level 3: VSML  (100 px) -> VERY_SLOW   ( 60 px/s)
//!   level 4: ASTP  ( 51 px) -> ALMOST_STOP ( 30 px/s)
//!   level 5: STOP  ( 50 px) -> hold position (0)
//!
//! If even the STOP box overlaps, the vehicle holds position. Same-lane
//! following is checked first: a leader closer than `STOP_GAP` stops the
//! vehicle, closer than `SAFE_DISTANCE` slows it. Exiting vehicles always
//! drive at full speed.
//!
//! Overlaps of the rotated hitboxes and the forward distance to the leader
//! are floating-point geometry that the caller computes; the distance is
//! handed in as its integer floor, which decides every comparison against
//! the integer thresholds exactly as the real value would.

use vstd::prelude::*;
use crate::config::{
    HB_ALMOST_STOP, HB_BIG, HB_LEVELS, HB_MEDIUM, HB_SMALL, HB_STOP, HB_VERY_SMALL, SAFE_DISTANCE,
    SPD_ALMOST_STOP, SPD_FAST, SPD_SLOW, SPD_VERY_SLOW, STOP_GAP,
};
use crate::vehicle::Phase;

verus! {

/// Hitbox length of `level`, in pixels.
pub open spec fn hb_size(level: int) -> u32 {
    if level == 0 { HB_BIG }
    else if level == 1 { HB_MEDIUM }
    else if level == 2 { HB_SMALL }
    else if level == 3 { HB_VERY_SMALL }
    else if level == 4 { HB_ALMOST_STOP }
    else { HB_STOP }
}

/// Speed granted when the hitbox of `level` is the first that is clear.
pub open spec fn hb_speed(level: int) -> u32 {
    if level == 0 { SPD_FAST }
    else if level == 1 { SPD_FAST }
    else if level == 2 { SPD_SLOW }
    else if level == 3 { SPD_VERY_SLOW }
    else if level == 4 { SPD_ALMOST_STOP }
    else { 0 }
}

/// Speed of the first level at or after `from` whose box is clear
/// (`overlaps[level]` false); 0 when every remaining box overlaps.
pub open spec fn ladder_speed(overlaps: Seq<bool>, from: int) -> u32
    decreases overlaps.len() - from,
{
    if from < 0 || from >= overlaps.len() {
        0
    } else if !overlaps[from] {
        hb_speed(from)
    } else {
        ladder_speed(overlaps, from + 1)
    }
}

/// The speed a vehicle in `phase` takes, given the integer floor of the
/// forward distance to its nearest same-lane leader (`u64::MAX` when there
/// is none) and, per hitbox level, whether that box overlaps another vehicle.
pub open spec fn decide_speed_spec(phase: Phase, lane_gap: u64, overlaps: Seq<bool>) -> u32 {
    if phase == Phase::Exiting {
        SPD_FAST
    } else if lane_gap < STOP_GAP as u64 {
        0
    } else if lane_gap < SAFE_DISTANCE as u64 {
        SPD_SLOW
    } else {
        ladder_speed(overlaps, 0)
    }
}

/// The hitbox length of `level`.
pub fn hitbox_size(level: usize) -> (len: u32)
    requires
        level < HB_LEVELS,
    ensures
        len == hb_size(level as int),
{
    match level {
        0 => HB_BIG,
        1 => HB_MEDIUM,
        2 => HB_SMALL,
        3 => HB_VERY_SMALL,
        4 => HB_ALMOST_STOP,
        _ => HB_STOP,
    }
}

/// The speed granted by a clear hitbox of `level`.
pub fn hitbox_speed(level: usize) -> (spd: u32)
    requires
        level < HB_LEVELS,
    ensures
        spd == hb_speed(level as int),
{
    match level {
        0 => SPD_FAST,
        1 => SPD_FAST,
        2 => SPD_SLOW,
        3 => SPD_VERY_SLOW,
        4 => SPD_ALMOST_STOP,
        _ => 0,
    }
}

/// The speed a vehicle takes this frame (see the module documentation).
/// `lane_gap` is the floor of the forward distance to the nearest same-lane
/// vehicle ahead within sensor range, or `u64::MAX` when there is none;
/// `overlaps[level]` tells whether the hitbox of `level` overlaps the body
/// of another vehicle.
pub fn decide_speed(phase: Phase, lane_gap: u64, overlaps: &Vec<bool>) -> (spd: u32)
    requires
        overlaps.len() == HB_LEVELS,
    ensures
        spd == decide_speed_spec(phase, lane_gap, overlaps@),
{
    if phase == Phase::Exiting {
        return SPD_FAST;
    }
    if lane_gap < STOP_GAP as u64 {
        return 0;
    }
    if lane_gap < SAFE_DISTANCE as u64 {
        return SPD_SLOW;
    }
    let mut level: usize = 0;
    while level < HB_LEVELS
        invariant
            level <= HB_LEVELS,
            overlaps.len() == HB_LEVELS,
            phase != Phase::Exiting,
            lane_gap >= SAFE_DISTANCE as u64,
            ladder_speed(overlaps@, 0) == ladder_speed(overlaps@, level as int),
        decreases HB_LEVELS - level,
    {
        if !overlaps[level] {
            assert(ladder_speed(overlaps@, level as int) == hb_speed(level as int));
            return hitbox_speed(level);
        }
        level = level + 1;
    }
    0
}

/// The hitbox lengths strictly shrink from level to level, ending with the
/// STOP box one pixel shorter than the ALMOST_STOP box; the granted speeds
/// never grow from level to level, and the STOP level grants no speed.
pub proof fn lemma_ladder_tables()
    ensures
        forall|i: int| 0 <= i < HB_LEVELS - 1 ==> #[trigger] hb_size(i) > hb_size(i + 1),
        forall|i: int| 0 <= i < HB_LEVELS - 1 ==> #[trigger] hb_speed(i) >= hb_speed(i + 1),
        HB_STOP + 1 == HB_ALMOST_STOP,
        hb_speed(HB_LEVELS - 1) == 0,
{
}

proof fn lemma_ladder_bounded(overlaps: Seq<bool>, from: int)
    requires
        0 <= from,
    ensures
        ladder_speed(overlaps, from) <= hb_speed(from),
    decreases overlaps.len() - from,
{
    if from < overlaps.len() && overlaps[from] {
        lemma_ladder_bounded(overlaps, from + 1);
    }
}

/// Every speed the decision yields is one of the speed tiers: hold
/// position, almost stop, very slow, slow or fast.
pub proof fn lemma_speed_tiers(phase: Phase, lane_gap: u64, overlaps: Seq<bool>)
    ensures
        ({
            let s = decide_speed_spec(phase, lane_gap, overlaps);
            s == 0 || s == SPD_ALMOST_STOP || s == SPD_VERY_SLOW || s == SPD_SLOW || s == SPD_FAST
        }),
{
    lemma_ladder_tiers(overlaps, 0);
}

proof fn lemma_ladder_tiers(overlaps: Seq<bool>, from: int)
    ensures
        ({
            let s = ladder_speed(overlaps, from);
            s == 0 || s == SPD_ALMOST_STOP || s == SPD_VERY_SLOW || s == SPD_SLOW || s == SPD_FAST
        }),
    decreases overlaps.len() - from,
{
    if 0 <= from < overlaps.len() && overlaps[from] {
        lemma_ladder_tiers(overlaps, from + 1);
    }
}

/// More obstruction never means more speed: if every hitbox that overlaps in
/// `fewer` also overlaps in `more`, the speed decided with `more` is at most
/// the speed decided with `fewer`.
pub proof fn lemma_more_overlap_not_faster(
    phase: Phase,
    lane_gap: u64,
    fewer: Seq<bool>,
    more: Seq<bool>,
)
    requires
        fewer.len() == more.len(),
        forall|i: int| 0 <= i < fewer.len() && #[trigger] fewer[i] ==> more[i],
    ensures
        decide_speed_spec(phase, lane_gap, more) <= decide_speed_spec(phase, lane_gap, fewer),
{
    lemma_ladder_monotone(fewer, more, 0);
}

proof fn lemma_ladder_monotone(fewer: Seq<bool>, more: Seq<bool>, from: int)
    requires
        0 <= from,
        fewer.len() == more.len(),
        forall|i: int| 0 <= i < fewer.len() && #[trigger] fewer[i] ==> more[i],
    ensures
        ladder_speed(more, from) <= ladder_speed(fewer, from),
    decreases fewer.len() - from,
{
    if from < fewer.len() {
        if fewer[from] {
            lemma_ladder_monotone(fewer, more, from + 1);
        } else {
            lemma_ladder_bounded(more, from);
        }
    }
}

/// A vehicle that is not exiting and has no close leader drives at full
/// speed when its biggest hitbox is clear, and holds position when every
/// hitbox, down to the STOP box, overlaps.
pub proof fn lemma_ladder_ends(phase: Phase, lane_gap: u64, overlaps: Seq<bool>)
    requires
        overlaps.len() == HB_LEVELS,
        phase != Phase::Exiting,
        lane_gap >= SAFE_DISTANCE as u64,
    ensures
        !overlaps[0] ==> decide_speed_spec(phase, lane_gap, overlaps) == SPD_FAST,
        (forall|i: int| 0 <= i < HB_LEVELS ==> #[trigger] overlaps[i])
            ==> decide_speed_spec(phase, lane_gap, overlaps) == 0,
{
    if forall|i: int| 0 <= i < HB_LEVELS ==> #[trigger] overlaps[i] {
        assert(overlaps[0] && overlaps[1] && overlaps[2] && overlaps[3] && overlaps[4] && overlaps[5]);
        reveal_with_fuel(ladder_speed, 7);
    }
}

/// Same-lane following overrides the hitbox ladder: a leader closer than
/// `STOP_GAP` stops a vehicle that is not exiting, one closer than
/// `SAFE_DISTANCE` slows it to `SPD_SLOW`; an exiting vehicle always drives
/// at full speed.
pub proof fn lemma_following(phase: Phase, lane_gap: u64, overlaps: Seq<bool>)
    ensures
        phase == Phase::Exiting ==> decide_speed_spec(phase, lane_gap, overlaps) == SPD_FAST,
        phase != Phase::Exiting && lane_gap < STOP_GAP as u64
            ==> decide_speed_spec(phase, lane_gap, overlaps) == 0,
        phase != Phase::Exiting && STOP_GAP as u64 <= lane_gap < SAFE_DISTANCE as u64
            ==> decide_speed_spec(phase, lane_gap, overlaps) == SPD_SLOW,
{
}

proof fn lemma_ladder_first_clear(overlaps: Seq<bool>, from: int, i: int)
    requires
        0 <= from <= i < overlaps.len(),
        forall|j: int| from <= j < i ==> #[trigger] overlaps[j],
        !overlaps[i],
    ensures
        ladder_speed(overlaps, from) == hb_speed(i),
    decreases i - from,
{
    if from < i {
        lemma_ladder_first_clear(overlaps, from + 1, i);
    }
}

/// With no leader too close and not exiting, the speed is that of the first
/// clear hitbox: 200 px/s when the big or the medium box is the first clear
/// one, 100 for the small box, 60 for the very small one, 30 for the
/// almost-stop box, and 0 when only the stop box is clear.
pub proof fn lemma_first_clear_box(phase: Phase, lane_gap: u64, overlaps: Seq<bool>, i: int)
    requires
        overlaps.len() == HB_LEVELS,
        phase != Phase::Exiting,
        lane_gap >= SAFE_DISTANCE as u64,
        0 <= i < HB_LEVELS,
        forall|j: int| 0 <= j < i ==> #[trigger] overlaps[j],
        !overlaps[i],
    ensures
        ({
            let s = decide_speed_spec(phase, lane_gap, overlaps);
            &&& i <= 1 ==> s == 200
            &&& i == 2 ==> s == 100
            &&& i == 3 ==> s == 60
            &&& i == 4 ==> s == 30
            &&& i == 5 ==> s == 0
        }),
{
    lemma_ladder_first_clear(overlaps, 0, i);
}

} // verus!
