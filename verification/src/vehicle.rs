use vstd::prelude::*;
use rand::Rng;
use crate::config::SPD_NORMAL;

verus! {

/// The road a vehicle enters from.
#[derive(Debug, Clone, Copy, PartialEq, Eq, Hash, Structural)]
pub enum Arm {
    North,
    South,
    East,
    West,
}

/// Where a vehicle goes at the intersection.
#[derive(Debug, Clone, Copy, PartialEq, Eq, Hash, Structural)]
pub enum Turn {
    Right,
    Forward,
    Left,
}

/// Where a vehicle stands relative to the intersection box.
#[derive(Debug, Clone, Copy, PartialEq, Eq, Structural)]
pub enum Phase {
    Approaching,
    Crossing,
    Exiting,
}

/// The arm picked by a random index below 4.
pub open spec fn arm_of_index(i: int) -> Arm {
    if i == 0 { Arm::North } else if i == 1 { Arm::South } else if i == 2 { Arm::East } else { Arm::West }
}

/// The turn picked by a random index below 3.
pub open spec fn turn_of_index(i: int) -> Turn {
    if i == 0 { Turn::Right } else if i == 1 { Turn::Forward } else { Turn::Left }
}

/// The arm at position `i` of North, South, East, West.
pub fn arm_from_index(i: usize) -> (arm: Arm)
    requires
        i < 4,
    ensures
        arm == arm_of_index(i as int),
{
    match i {
        0 => Arm::North,
        1 => Arm::South,
        2 => Arm::East,
        _ => Arm::West,
    }
}

/// The turn at position `i` of Right, Forward, Left.
pub fn turn_from_index(i: usize) -> (turn: Turn)
    requires
        i < 3,
    ensures
        turn == turn_of_index(i as int),
{
    match i {
        0 => Turn::Right,
        1 => Turn::Forward,
        _ => Turn::Left,
    }
}

/// Calls `rand::Rng::gen_range(0..bound)` on the thread-local generator of
/// `rand::thread_rng`. Claimed: the result lies in `0..bound` (the range is
/// not empty, so `gen_range` does not panic). Which value comes out is left
/// to chance.
#[verifier::external_body]
fn random_below(bound: usize) -> (r: usize)
    requires
        bound > 0,
    ensures
        r < bound,
{
    rand::thread_rng().gen_range(0..bound)
}

/// A vehicle's state apart from its position on the road.
///
/// Speeds are whole pixels per second (every speed the simulation assigns
/// is whole); times are nanoseconds on the caller's monotonic clock.
#[derive(Debug, Clone, Copy)]
pub struct Vehicle {
    pub id: u64,
    pub arm: Arm,
    pub turn: Turn,
    pub phase: Phase,
    /// Current speed in px/s; 0 means fully stopped.
    pub spd_px: u32,
    /// Index into the eight-colour palette.
    pub color: usize,
    /// When the vehicle entered the intersection box.
    pub entry_t: Option<u64>,
    /// When the vehicle left the intersection box.
    pub exit_t: Option<u64>,
    /// Highest speed at which the vehicle has moved.
    pub max_spd: u32,
    /// Lowest speed at which the vehicle has moved; `u32::MAX` until it moves.
    pub min_spd: u32,
    pub priority: u64,
    pub crashed: bool,
    pub hitbox_level: usize,
}

impl Vehicle {
    /// `v` is a vehicle just created with `id` on `arm` taking `turn`: it
    /// approaches at normal speed, has not moved, crossed or crashed, has its
    /// id as priority and a colour from the eight-colour palette.
    pub open spec fn is_fresh(v: Vehicle, id: u64, arm: Arm, turn: Turn) -> bool {
        &&& v.id == id
        &&& v.arm == arm
        &&& v.turn == turn
        &&& v.phase == Phase::Approaching
        &&& v.spd_px == SPD_NORMAL
        &&& v.color < 8
        &&& v.entry_t is None
        &&& v.exit_t is None
        &&& v.max_spd == 0
        &&& v.min_spd == u32::MAX
        &&& v.priority == id
        &&& !v.crashed
        &&& v.hitbox_level == 0
    }

    /// A new vehicle with identifier `id` entering from `arm` and taking
    /// `turn`, painted in a random palette colour.
    pub fn new(id: u64, arm: Arm, turn: Turn) -> (v: Vehicle)
        ensures
            Vehicle::is_fresh(v, id, arm, turn),
    {
        Vehicle {
            id,
            arm,
            turn,
            phase: Phase::Approaching,
            spd_px: SPD_NORMAL,
            color: random_below(8),
            entry_t: None,
            exit_t: None,
            max_spd: 0,
            min_spd: u32::MAX,
            priority: id,
            crashed: false,
            hitbox_level: 0,
        }
    }

    /// A new vehicle on a random arm taking a random turn.
    pub fn new_random(id: u64) -> (v: Vehicle)
        ensures
            Vehicle::is_fresh(v, id, v.arm, v.turn),
    {
        let arm = arm_from_index(random_below(4));
        let turn = turn_from_index(random_below(3));
        Self::new(id, arm, turn)
    }

    /// A new vehicle on `arm` taking a random turn.
    pub fn new_from_arm(id: u64, arm: Arm) -> (v: Vehicle)
        ensures
            Vehicle::is_fresh(v, id, arm, v.turn),
    {
        let turn = turn_from_index(random_below(3));
        Self::new(id, arm, turn)
    }

    /// What moving one step at the current speed makes of the speed record.
    pub open spec fn after_move(self) -> Vehicle {
        Vehicle {
            max_spd: if self.spd_px > self.max_spd { self.spd_px } else { self.max_spd },
            min_spd: if self.spd_px < self.min_spd { self.spd_px } else { self.min_spd },
            ..self
        }
    }

    /// Notes that the vehicle moved a step at its current speed without
    /// reaching the end of its path.
    pub fn record_speed(&mut self)
        ensures
            *final(self) == old(self).after_move(),
    {
        if self.spd_px > self.max_spd {
            self.max_spd = self.spd_px;
        }
        if self.spd_px < self.min_spd {
            self.min_spd = self.spd_px;
        }
    }

    /// Time spent in the intersection box, once the vehicle has both entered
    /// and left it (zero if the clock reports the exit before the entry).
    pub open spec fn elapsed_spec(self) -> Option<u64> {
        match (self.entry_t, self.exit_t) {
            (Some(a), Some(b)) => Some(if b >= a { (b - a) as u64 } else { 0u64 }),
            _ => None,
        }
    }

    /// The lowest speed at which the vehicle has moved, or 0 if it has not.
    pub open spec fn min_spd_d_spec(self) -> u32 {
        if self.min_spd == u32::MAX { 0 } else { self.min_spd }
    }

    /// Time spent in the intersection box, once the vehicle has both entered
    /// and left it (zero if the clock reports the exit before the entry).
    pub fn elapsed(&self) -> (t: Option<u64>)
        ensures
            t == self.elapsed_spec(),
    {
        match (self.entry_t, self.exit_t) {
            (Some(a), Some(b)) => Some(if b >= a { b - a } else { 0 }),
            _ => None,
        }
    }

    /// The lowest speed at which the vehicle has moved, or 0 if it has not.
    pub fn min_spd_d(&self) -> (s: u32)
        ensures
            s == self.min_spd_d_spec(),
    {
        if self.min_spd == u32::MAX { 0 } else { self.min_spd }
    }
}

/// Hands out vehicle identifiers in order: 1, 2, 3, ... Like an atomic
/// counter's fetch-and-add, it wraps to 0 after `u64::MAX`.
pub struct IdSource {
    next: u64,
}

impl View for IdSource {
    type V = u64;

    /// The identifier handed out next.
    closed spec fn view(&self) -> u64 {
        self.next
    }
}

impl IdSource {
    /// A source whose first identifier is 1.
    pub fn new() -> (s: IdSource)
        ensures
            s@ == 1,
    {
        IdSource { next: 1 }
    }

    /// The next identifier; each call hands out the one after the last.
    pub fn next_id(&mut self) -> (id: u64)
        ensures
            id == old(self)@,
            final(self)@ == (if id == u64::MAX { 0 } else { id + 1 }),
    {
        let id = self.next;
        if id == u64::MAX {
            self.next = 0;
        } else {
            self.next = id + 1;
        }
        id
    }
}

} // verus!
