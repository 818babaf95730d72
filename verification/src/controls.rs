//! Keyboard control of the simulation.
//!
//! | Key         | Action                                        |
//! |-------------|-----------------------------------------------|
//! | Arrow Up    | spawn a vehicle from the South (northbound)   |
//! | Arrow Down  | spawn a vehicle from the North (southbound)   |
//! | Arrow Right | spawn a vehicle from the West (eastbound)     |
//! | Arrow Left  | spawn a vehicle from the East (westbound)     |
//! | R           | continuously spawn random vehicles            |
//! | M           | manual mode: arrow picks the arm, 1/2/3 the turn |
//! | Esc         | stop the simulation and show statistics      |
//!
//! In automatic mode an arrow spawns a vehicle with a random turn; in
//! manual mode it only selects the arm, and 1 (right), 2 (forward) or
//! 3 (left) then spawns. Keyboard spawns are at least `KEY_CD_NS` apart;
//! random spawns in automatic mode come every `RAND_CD_NS`.
//! Times are nanoseconds on the caller's monotonic clock.

use vstd::prelude::*;
use crate::config::{KEY_CD_NS, RAND_CD_NS};
use crate::vehicle::{Arm, Turn};

verus! {

/// The arm chosen in manual mode, if any.
#[derive(Debug, Clone, Copy, PartialEq, Eq, Structural)]
pub enum SelArm {
    Unset,
    North,
    South,
    East,
    West,
}

/// A key press the simulation reacts to.
#[derive(Debug, Clone, Copy, PartialEq, Eq, Structural)]
pub enum Key {
    Escape,
    R,
    M,
    Up,
    Down,
    Left,
    Right,
    Num1,
    Num2,
    Num3,
    Other,
}

/// What the caller has to do after a key press.
#[derive(Debug, Clone, Copy, PartialEq, Eq, Structural)]
pub enum Command {
    /// Nothing beyond redrawing.
    Continue,
    /// Show the statistics screen and stop.
    ShowStatsAndQuit,
    /// Spawn a vehicle on this arm with a random turn.
    SpawnFromArm(Arm),
    /// Spawn a vehicle on this arm taking this turn.
    Spawn(Arm, Turn),
}

/// The control state.
#[derive(Debug, Clone, Copy)]
pub struct Controls {
    /// Automatic random spawning is on.
    pub rng_mode: bool,
    /// Manual two-step spawning is on.
    pub manual: bool,
    /// The arm selected in manual mode.
    pub sel_arm: SelArm,
    /// When the last random spawn happened.
    pub last_rand: u64,
    /// When the last keyboard spawn happened.
    pub last_key: u64,
}

/// The arm an arrow key spawns from: the arrow shows the direction of travel.
pub open spec fn arrow_arm(k: Key) -> Arm {
    match k {
        Key::Up => Arm::South,
        Key::Down => Arm::North,
        Key::Right => Arm::West,
        _ => Arm::East,
    }
}

/// The selection an arrow key makes in manual mode.
pub open spec fn arrow_sel(k: Key) -> SelArm {
    match k {
        Key::Up => SelArm::South,
        Key::Down => SelArm::North,
        Key::Right => SelArm::West,
        _ => SelArm::East,
    }
}

/// The arm of a selection other than `None`.
pub open spec fn sel_to_arm(s: SelArm) -> Arm {
    match s {
        SelArm::North => Arm::North,
        SelArm::South => Arm::South,
        SelArm::East => Arm::East,
        _ => Arm::West,
    }
}

/// The turn a number key picks: 1 right, 2 forward, 3 left.
pub open spec fn number_turn(k: Key) -> Turn {
    match k {
        Key::Num1 => Turn::Right,
        Key::Num2 => Turn::Forward,
        _ => Turn::Left,
    }
}

/// At least `cd` nanoseconds have passed from `last` to `now`.
pub open spec fn waited(last: u64, now: u64, cd: u64) -> bool {
    now >= last && now - last >= cd
}

pub open spec fn is_arrow(k: Key) -> bool {
    k == Key::Up || k == Key::Down || k == Key::Left || k == Key::Right
}

pub open spec fn is_number(k: Key) -> bool {
    k == Key::Num1 || k == Key::Num2 || k == Key::Num3
}

/// The control state and command after pressing `k` at `now`.
pub open spec fn on_key_spec(c: Controls, k: Key, now: u64) -> (Controls, Command) {
    if k == Key::Escape {
        (c, Command::ShowStatsAndQuit)
    } else if k == Key::R {
        (Controls { manual: false, rng_mode: true, sel_arm: SelArm::Unset, ..c }, Command::Continue)
    } else if k == Key::M {
        (Controls { manual: true, rng_mode: false, sel_arm: SelArm::Unset, ..c }, Command::Continue)
    } else if is_arrow(k) {
        if c.manual {
            (Controls { sel_arm: arrow_sel(k), ..c }, Command::Continue)
        } else if waited(c.last_key, now, KEY_CD_NS) {
            (Controls { last_key: now, ..c }, Command::SpawnFromArm(arrow_arm(k)))
        } else {
            (c, Command::Continue)
        }
    } else if is_number(k) && c.manual && c.sel_arm != SelArm::Unset && waited(c.last_key, now, KEY_CD_NS) {
        (Controls { last_key: now, ..c }, Command::Spawn(sel_to_arm(c.sel_arm), number_turn(k)))
    } else {
        (c, Command::Continue)
    }
}

/// Whether `c` calls for a random spawn at `now`.
pub open spec fn random_due(c: Controls, now: u64) -> bool {
    c.rng_mode && waited(c.last_rand, now, RAND_CD_NS)
}

fn waited_exec(last: u64, now: u64, cd: u64) -> (r: bool)
    ensures
        r == waited(last, now, cd),
{
    now >= last && now - last >= cd
}

impl Controls {
    /// The control state at start-up, at time `now`: idle, nothing selected.
    pub fn new(now: u64) -> (c: Controls)
        ensures
            c == (Controls { rng_mode: false, manual: false, sel_arm: SelArm::Unset, last_rand: now, last_key: now }),
    {
        Controls { rng_mode: false, manual: false, sel_arm: SelArm::Unset, last_rand: now, last_key: now }
    }

    /// Reacts to the key `k` pressed at `now`.
    pub fn on_key(&mut self, k: Key, now: u64) -> (cmd: Command)
        ensures
            (*final(self), cmd) == on_key_spec(*old(self), k, now),
    {
        match k {
            Key::Escape => Command::ShowStatsAndQuit,
            Key::R => {
                self.manual = false;
                self.rng_mode = true;
                self.sel_arm = SelArm::Unset;
                Command::Continue
            },
            Key::M => {
                self.manual = true;
                self.rng_mode = false;
                self.sel_arm = SelArm::Unset;
                Command::Continue
            },
            Key::Up | Key::Down | Key::Left | Key::Right => {
                if self.manual {
                    self.sel_arm = match k {
                        Key::Up => SelArm::South,
                        Key::Down => SelArm::North,
                        Key::Right => SelArm::West,
                        _ => SelArm::East,
                    };
                    Command::Continue
                } else if waited_exec(self.last_key, now, KEY_CD_NS) {
                    let arm = match k {
                        Key::Up => Arm::South,
                        Key::Down => Arm::North,
                        Key::Right => Arm::West,
                        _ => Arm::East,
                    };
                    self.last_key = now;
                    Command::SpawnFromArm(arm)
                } else {
                    Command::Continue
                }
            },
            Key::Num1 | Key::Num2 | Key::Num3 => {
                if self.manual && self.sel_arm != SelArm::Unset {
                    if waited_exec(self.last_key, now, KEY_CD_NS) {
                        let arm = match self.sel_arm {
                            SelArm::North => Arm::North,
                            SelArm::South => Arm::South,
                            SelArm::East => Arm::East,
                            _ => Arm::West,
                        };
                        let turn = match k {
                            Key::Num1 => Turn::Right,
                            Key::Num2 => Turn::Forward,
                            _ => Turn::Left,
                        };
                        self.last_key = now;
                        return Command::Spawn(arm, turn);
                    }
                }
                Command::Continue
            },
            Key::Other => Command::Continue,
        }
    }

    /// Per frame at `now`: whether a random vehicle is due in automatic mode
    /// (and, if so, the random-spawn clock restarts at `now`).
    pub fn tick(&mut self, now: u64) -> (spawn: bool)
        ensures
            spawn == random_due(*old(self), now),
            *final(self) == (if spawn { Controls { last_rand: now, ..*old(self) } } else { *old(self) }),
    {
        if self.rng_mode && waited_exec(self.last_rand, now, RAND_CD_NS) {
            self.last_rand = now;
            true
        } else {
            false
        }
    }
}

/// Keyboard spawns are rate-limited: a key press that spawns at `now`
/// leaves the clock at `now`, and no key press before
/// `now + KEY_CD_NS` spawns again.
pub proof fn lemma_key_spawns_spaced(c: Controls, k1: Key, t1: u64, k2: Key, t2: u64)
    requires
        on_key_spec(c, k1, t1).1 != Command::Continue,
        on_key_spec(c, k1, t1).1 != Command::ShowStatsAndQuit,
        t2 < t1 + KEY_CD_NS,
    ensures
        on_key_spec(c, k1, t1).0.last_key == t1,
        ({
            let cmd2 = on_key_spec(on_key_spec(c, k1, t1).0, k2, t2).1;
            cmd2 == Command::Continue || cmd2 == Command::ShowStatsAndQuit
        }),
{
}

/// Only manual mode spawns with a chosen turn, and only after an arm has
/// been selected; automatic mode never selects an arm.
pub proof fn lemma_manual_two_steps(c: Controls, k: Key, now: u64)
    ensures
        on_key_spec(c, k, now).1 is Spawn ==> c.manual && c.sel_arm != SelArm::Unset,
        on_key_spec(c, k, now).1 is SpawnFromArm ==> !c.manual,
        !c.manual && c.sel_arm == SelArm::Unset ==> on_key_spec(c, k, now).0.sel_arm == SelArm::Unset,
        c.manual && c.rng_mode == false ==> !on_key_spec(c, k, now).0.rng_mode || k == Key::R,
{
}

/// The two modes exclude each other: R switches to automatic mode and M to
/// manual mode, each clearing the selection; no key turns both on.
pub proof fn lemma_modes_exclusive(c: Controls, k: Key, now: u64)
    requires
        !(c.manual && c.rng_mode),
    ensures
        !(on_key_spec(c, k, now).0.manual && on_key_spec(c, k, now).0.rng_mode),
        k == Key::R ==> on_key_spec(c, k, now).0.rng_mode && on_key_spec(c, k, now).0.sel_arm == SelArm::Unset,
        k == Key::M ==> on_key_spec(c, k, now).0.manual && on_key_spec(c, k, now).0.sel_arm == SelArm::Unset,
{
}

/// In manual mode, once an arm is selected and the key cooldown has run
/// out, a number key spawns on exactly the selected arm, North, South,
/// East or West, taking the turn the key names: 1 right, 2 forward,
/// 3 left; the clock restarts at `now` and nothing else changes.
pub proof fn lemma_number_key_spawns_on_selection(c: Controls, k: Key, now: u64)
    requires
        c.manual,
        c.sel_arm != SelArm::Unset,
        k == Key::Num1 || k == Key::Num2 || k == Key::Num3,
        now >= c.last_key && now - c.last_key >= KEY_CD_NS,
    ensures
        ({
            let (c2, cmd) = on_key_spec(c, k, now);
            &&& cmd matches Command::Spawn(arm, turn) && {
                &&& c.sel_arm == SelArm::North ==> arm == Arm::North
                &&& c.sel_arm == SelArm::South ==> arm == Arm::South
                &&& c.sel_arm == SelArm::East ==> arm == Arm::East
                &&& c.sel_arm == SelArm::West ==> arm == Arm::West
                &&& k == Key::Num1 ==> turn == Turn::Right
                &&& k == Key::Num2 ==> turn == Turn::Forward
                &&& k == Key::Num3 ==> turn == Turn::Left
            }
            &&& c2 == Controls { last_key: now, ..c }
        }),
{
}

/// An arrow names a direction of travel, and both modes honour it: in
/// automatic mode it spawns from the arm a vehicle travelling that way
/// comes from (Up from the South, Down from the North, Right from the West,
/// Left from the East); in manual mode it selects that same arm, so a
/// number key pressed afterwards spawns there too.
pub proof fn lemma_arrow_arms_agree(c: Controls, k: Key, k2: Key, t1: u64, t2: u64)
    requires
        k == Key::Up || k == Key::Down || k == Key::Left || k == Key::Right,
        k2 == Key::Num1 || k2 == Key::Num2 || k2 == Key::Num3,
    ensures
        ({
            let auto = Controls { manual: false, ..c };
            let man = Controls { manual: true, ..c };
            let arm: Arm = if k == Key::Up { Arm::South } else if k == Key::Down { Arm::North }
                else if k == Key::Right { Arm::West } else { Arm::East };
            &&& (t1 >= c.last_key && t1 - c.last_key >= KEY_CD_NS)
                ==> on_key_spec(auto, k, t1).1 == Command::SpawnFromArm(arm)
            &&& ((t2 >= c.last_key && t2 - c.last_key >= KEY_CD_NS) ==> {
                let c2 = on_key_spec(man, k, t1).0;
                on_key_spec(c2, k2, t2).1 matches Command::Spawn(a2, _) && a2 == arm
            })
        }),
{
}

/// Random spawns come only in automatic mode and at least `RAND_CD_NS`
/// apart: a tick spawns exactly when automatic mode is on and that long has
/// passed since the last random spawn, and then restarts that clock at
/// `now`. Esc always asks to show the statistics and quit, changing nothing.
pub proof fn lemma_random_spawns_spaced(c: Controls, now: u64)
    ensures
        random_due(c, now) <==> (c.rng_mode && now >= c.last_rand && now - c.last_rand >= RAND_CD_NS),
        on_key_spec(c, Key::Escape, now) == (c, Command::ShowStatsAndQuit),
{
}

} // verus!
