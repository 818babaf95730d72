//! The vehicles on the road and what happens to them frame by frame.
//!
//! A frame alternates floating-point geometry, done by the caller, with the
//! decisions made here:
//!
//! 1. `decide_speeds`: the caller measures, for every vehicle, the floored
//!    forward distance to its same-lane leader and which hitboxes overlap;
//!    each vehicle whose speed cooldown has run out gets its new speed.
//! 2. The caller moves every vehicle whose speed is positive along its path.
//! 3. `advance`: given which vehicles reached the end of their path and
//!    which stand in the intersection box, phases move on, statistics are
//!    recorded, and finished vehicles leave together with their timers.
//! 4. `scan_conflicts`: given the floored distances between vehicles, close
//!    calls and crashes between vehicles on different lanes are counted.
//!
//! Every vehicle on the road has exactly one speed-cooldown timer, kept in
//! the same order as the vehicles, and no two vehicles share an identifier.

use vstd::prelude::*;
use crate::config::{CLOSE_CALL_DIST, CRASH_DIST, HB_LEVELS, SPAWN_GAP, SPD_FAST, VELOCITY_COOLDOWN_NS};
use crate::speed::{decide_speed, decide_speed_spec};
use crate::stats::Statistics;
use crate::vehicle::{Arm, Phase, Turn, Vehicle};

verus! {

/// What the caller observed of one vehicle after moving it.
#[derive(Debug, Clone, Copy)]
pub struct Motion {
    /// The vehicle was moved and reached the last waypoint of its path.
    pub finished: bool,
    /// The vehicle's centre lies in the intersection box.
    pub in_box: bool,
}

/// The vehicles on the road, their speed-cooldown timers and the number of
/// vehicles that have left the road.
pub struct World {
    vehicles: Vec<Vehicle>,
    total_passed: usize,
    /// Per vehicle: (identifier, time of the last speed update).
    vel_timers: Vec<(u64, u64)>,
}

/// The abstract state of a `World`.
pub struct WorldView {
    pub vehicles: Seq<Vehicle>,
    pub total_passed: usize,
    pub vel_timers: Seq<(u64, u64)>,
}

impl View for World {
    type V = WorldView;

    closed spec fn view(&self) -> WorldView {
        WorldView {
            vehicles: self.vehicles@,
            total_passed: self.total_passed,
            vel_timers: self.vel_timers@,
        }
    }
}

/// No two vehicles of `vs` share an identifier.
pub open spec fn ids_unique(vs: Seq<Vehicle>) -> bool {
    forall|i: int, j: int| 0 <= i < vs.len() && 0 <= j < vs.len() && i != j
        ==> #[trigger] vs[i].id != #[trigger] vs[j].id
}

/// `timers` holds one timer per vehicle of `vs`, in the same order.
pub open spec fn timers_match(vs: Seq<Vehicle>, timers: Seq<(u64, u64)>) -> bool {
    &&& timers.len() == vs.len()
    &&& forall|i: int| 0 <= i < vs.len() ==> (#[trigger] timers[i]).0 == vs[i].id
}

impl WorldView {
    /// Every vehicle has a distinct identifier and exactly one timer.
    pub open spec fn wf(self) -> bool {
        &&& ids_unique(self.vehicles)
        &&& timers_match(self.vehicles, self.vel_timers)
    }

    /// No vehicle on the road has identifier `id`.
    pub open spec fn id_free(self, id: u64) -> bool {
        forall|i: int| 0 <= i < self.vehicles.len() ==> (#[trigger] self.vehicles[i]).id != id
    }
}

impl World {
    /// The invariant every `World` keeps: distinct identifiers, one timer
    /// per vehicle in the same order.
    #[verifier::type_invariant]
    spec fn inv(self) -> bool {
        &&& ids_unique(self.vehicles@)
        &&& timers_match(self.vehicles@, self.vel_timers@)
    }
}

/// Two vehicles drive in the same lane: same arm, same turn.
pub open spec fn same_lane_spec(a: Vehicle, b: Vehicle) -> bool {
    a.arm == b.arm && a.turn == b.turn
}

/// Whether `a` and `b` drive in the same lane.
pub fn same_lane(a: &Vehicle, b: &Vehicle) -> (r: bool)
    ensures
        r == same_lane_spec(*a, *b),
{
    a.arm == b.arm && a.turn == b.turn
}

/// A vehicle may spawn when no vehicle in its lane is within `SPAWN_GAP`
/// (`near[i]` is the floored distance from `vs[i]` to the spawn point).
pub open spec fn spawn_clear(vs: Seq<Vehicle>, v: Vehicle, near: Seq<u64>) -> bool {
    forall|i: int| 0 <= i < vs.len() ==>
        !(same_lane_spec(#[trigger] vs[i], v) && near[i] < SPAWN_GAP as u64)
}

/// The speed cooldown of a timer last set at `last` has run out at `now`.
pub open spec fn cooldown_open(last: u64, now: u64) -> bool {
    now >= last && now - last >= VELOCITY_COOLDOWN_NS
}

/// A vehicle after the speed decision at `now`, its timer last set at `last`.
pub open spec fn speed_decided(v: Vehicle, last: u64, now: u64, lane_gap: u64, overlaps: Seq<bool>) -> Vehicle {
    if cooldown_open(last, now) {
        Vehicle { spd_px: decide_speed_spec(v.phase, lane_gap, overlaps), ..v }
    } else {
        v
    }
}

/// A timer after the speed decision at `now`.
pub open spec fn timer_after(t: (u64, u64), now: u64) -> (u64, u64) {
    if cooldown_open(t.1, now) { (t.0, now) } else { t }
}

/// The vehicle was moving and reached the end of its path this frame.
pub open spec fn finishes(v: Vehicle, m: Motion) -> bool {
    v.spd_px > 0 && m.finished
}

/// The vehicle after its move: a moving vehicle that did not reach the end
/// of its path notes the speed it moved at.
pub open spec fn moved(v: Vehicle, m: Motion) -> Vehicle {
    if v.spd_px > 0 && !m.finished { v.after_move() } else { v }
}

/// The vehicle is crossing and has left the intersection box.
pub open spec fn leaves_box(v: Vehicle, m: Motion) -> bool {
    v.phase == Phase::Crossing && !m.in_box
}

/// The vehicle after its move and its phase transition at `now`: an
/// approaching vehicle in the box starts crossing, a crossing vehicle out of
/// the box starts exiting.
pub open spec fn advanced(v: Vehicle, m: Motion, now: u64) -> Vehicle {
    let w = moved(v, m);
    if w.phase == Phase::Approaching && m.in_box {
        Vehicle { phase: Phase::Crossing, entry_t: Some(now), ..w }
    } else if w.phase == Phase::Crossing && !m.in_box {
        Vehicle { phase: Phase::Exiting, exit_t: Some(now), ..w }
    } else {
        w
    }
}

/// Statistics after vehicle `w` has left the box: its transit time (when
/// known) and its speeds are recorded.
pub open spec fn record_exit(s: Statistics, w: Vehicle) -> Statistics {
    let s1 = match w.elapsed_spec() {
        Some(t) => s.with_time(t),
        None => s,
    };
    s1.with_speeds(w.max_spd, w.min_spd_d_spec())
}

/// Statistics after the first `k` vehicles of `vs` have made their phase
/// transitions, in order.
pub open spec fn exit_stats(s: Statistics, vs: Seq<Vehicle>, ms: Seq<Motion>, now: u64, k: int) -> Statistics
    decreases k,
{
    if k <= 0 {
        s
    } else {
        let s0 = exit_stats(s, vs, ms, now, k - 1);
        if leaves_box(vs[k - 1], ms[k - 1]) {
            record_exit(s0, advanced(vs[k - 1], ms[k - 1], now))
        } else {
            s0
        }
    }
}

/// The elements of the first `k` of `s` whose `keep` flag is set, in order.
pub open spec fn select<A>(s: Seq<A>, keep: Seq<bool>, k: int) -> Seq<A>
    decreases k,
{
    if k <= 0 {
        Seq::empty()
    } else {
        let r = select(s, keep, k - 1);
        if keep[k - 1] { r.push(s[k - 1]) } else { r }
    }
}

/// Every vehicle of `vs` after the move and phase transition of one frame.
pub open spec fn advanced_all(vs: Seq<Vehicle>, ms: Seq<Motion>, now: u64) -> Seq<Vehicle> {
    Seq::new(vs.len(), |i: int| advanced(vs[i], ms[i], now))
}

/// Which vehicles of `vs` stay on the road after one frame.
pub open spec fn staying(vs: Seq<Vehicle>, ms: Seq<Motion>) -> Seq<bool> {
    Seq::new(vs.len(), |i: int| !finishes(vs[i], ms[i]))
}

/// Vehicles `i` and `j` drive in different lanes and their floored
/// distance `d[i][j]` is under `CLOSE_CALL_DIST`.
pub open spec fn pair_close(vs: Seq<Vehicle>, d: Seq<Vec<u64>>, i: int, j: int) -> bool {
    !same_lane_spec(vs[i], vs[j]) && d[i]@[j] < CLOSE_CALL_DIST as u64
}

/// Number of close pairs `(a, b)`, `a < b`, from pair `(i, j)` onwards in
/// the order `(0, 1), (0, 2), ..., (1, 2), ...`.
pub open spec fn close_pairs(vs: Seq<Vehicle>, d: Seq<Vec<u64>>, i: int, j: int) -> nat
    decreases vs.len() - i, vs.len() - j,
{
    if i < 0 || i >= vs.len() {
        0
    } else if j >= vs.len() {
        close_pairs(vs, d, i + 1, i + 2)
    } else {
        (if pair_close(vs, d, i, j) { 1nat } else { 0nat }) + close_pairs(vs, d, i, j + 1)
    }
}

/// Vehicles `i` and `j` drive in different lanes, are closer than
/// `CRASH_DIST`, and neither has crashed yet.
pub open spec fn crash_pair(vs: Seq<Vehicle>, d: Seq<Vec<u64>>, i: int, j: int) -> bool {
    &&& !same_lane_spec(vs[i], vs[j])
    &&& d[i]@[j] < CRASH_DIST as u64
    &&& !vs[i].crashed
    &&& !vs[j].crashed
}

/// `v`, marked as crashed.
pub open spec fn mark_crashed(v: Vehicle) -> Vehicle {
    Vehicle { crashed: true, ..v }
}

/// The vehicles after examining the pairs from `(i, j)` onwards in order,
/// each crash marking both vehicles, and the number of crashes found.
pub open spec fn crash_scan(vs: Seq<Vehicle>, d: Seq<Vec<u64>>, i: int, j: int) -> (Seq<Vehicle>, nat)
    decreases vs.len() - i, vs.len() - j,
{
    if i < 0 || i >= vs.len() {
        (vs, 0)
    } else if j >= vs.len() {
        crash_scan(vs, d, i + 1, i + 2)
    } else if 0 <= j && crash_pair(vs, d, i, j) {
        let vs2 = vs.update(i, mark_crashed(vs[i])).update(j, mark_crashed(vs[j]));
        proof {
            assert(vs2.len() == vs.len());
        }
        let r = crash_scan(vs2, d, i, j + 1);
        (r.0, r.1 + 1)
    } else {
        crash_scan(vs, d, i, j + 1)
    }
}

/// `w` is `v` with possibly another crash flag.
pub open spec fn same_but_crash(w: Vehicle, v: Vehicle) -> bool {
    w == Vehicle { crashed: w.crashed, ..v }
}

proof fn lemma_pair_bound(i: int, j: int, n: int)
    requires
        0 <= i < n,
        j < n,
    ensures
        i * n + j + 1 <= n * n,
        i * n + n == (i + 1) * n,
{
    assert(i * n + j + 1 <= n * n) by (nonlinear_arith)
        requires 0 <= i < n, j < n;
    assert(i * n + n == (i + 1) * n) by (nonlinear_arith);
}

/// Order of the phases: approaching, crossing, exiting.
pub open spec fn phase_rank(p: Phase) -> int {
    match p {
        Phase::Approaching => 0,
        Phase::Crossing => 1,
        Phase::Exiting => 2,
    }
}

/// Number of crashed vehicles in `vs`.
pub open spec fn count_crashed(vs: Seq<Vehicle>) -> nat
    decreases vs.len(),
{
    if vs.len() == 0 {
        0
    } else {
        count_crashed(vs.drop_last()) + (if vs.last().crashed { 1nat } else { 0nat })
    }
}

/// Speeds change at most once per cooldown: a vehicle whose speed was
/// decided at `t1` keeps that speed, and its timer keeps `t1`, at any
/// decision made before `t1 + VELOCITY_COOLDOWN_NS`, whatever is sensed then.
pub proof fn lemma_cooldown_holds_speed(
    v: Vehicle,
    last: u64,
    t1: u64,
    t2: u64,
    gap1: u64,
    overlaps1: Seq<bool>,
    gap2: u64,
    overlaps2: Seq<bool>,
)
    requires
        cooldown_open(last, t1),
        t1 <= t2,
        t2 - t1 < VELOCITY_COOLDOWN_NS,
    ensures
        ({
            let v1 = speed_decided(v, last, t1, gap1, overlaps1);
            let timer1 = timer_after((v.id, last), t1);
            &&& timer1 == (v.id, t1)
            &&& speed_decided(v1, timer1.1, t2, gap2, overlaps2) == v1
            &&& timer_after(timer1, t2) == timer1
        }),
{
}

/// A speed decision leaves everything but the speed as it was.
pub proof fn lemma_decision_touches_speed_only(v: Vehicle, last: u64, now: u64, gap: u64, overlaps: Seq<bool>)
    ensures
        speed_decided(v, last, now, gap, overlaps) == (Vehicle {
            spd_px: speed_decided(v, last, now, gap, overlaps).spd_px,
            ..v
        }),
{
}

/// Crashes are only counted, never acted upon: whether a vehicle has
/// crashed makes no difference to the speed it is given.
pub proof fn lemma_crash_does_not_stop(v: Vehicle, last: u64, now: u64, gap: u64, overlaps: Seq<bool>, crashed: bool)
    ensures
        speed_decided(Vehicle { crashed, ..v }, last, now, gap, overlaps).spd_px
            == speed_decided(v, last, now, gap, overlaps).spd_px,
{
}

/// Phases only move forwards, one step per frame: approaching, then
/// crossing (with the entry time set), then exiting (with the exit time
/// set); identity, lane and crash flag never change.
pub proof fn lemma_phase_forward(v: Vehicle, m: Motion, now: u64)
    ensures
        ({
            let w = advanced(v, m, now);
            &&& phase_rank(v.phase) <= phase_rank(w.phase) <= phase_rank(v.phase) + 1
            &&& w.id == v.id && w.arm == v.arm && w.turn == v.turn && w.crashed == v.crashed
            &&& w.spd_px == v.spd_px
            &&& (w.phase == Phase::Crossing && v.phase != Phase::Crossing ==> w.entry_t == Some(now))
            &&& (w.phase == Phase::Exiting && v.phase != Phase::Exiting ==> w.exit_t == Some(now))
            &&& (w.phase == v.phase ==> w.entry_t == v.entry_t && w.exit_t == v.exit_t)
        }),
{
}

proof fn lemma_exit_stats_counts(s: Statistics, vs: Seq<Vehicle>, ms: Seq<Motion>, now: u64, k: int)
    ensures
        exit_stats(s, vs, ms, now, k).total_passed == s.total_passed,
        exit_stats(s, vs, ms, now, k).max_passed == s.max_passed,
        exit_stats(s, vs, ms, now, k).close_calls == s.close_calls,
        exit_stats(s, vs, ms, now, k).crashes == s.crashes,
    decreases k,
{
    if k > 0 {
        lemma_exit_stats_counts(s, vs, ms, now, k - 1);
    }
}

/// The pass counters after a frame in which `d` vehicles left the road:
/// `total_passed` grows by exactly `d`, `max_passed` never shrinks and never
/// falls below `total_passed` (when it did not before), and the crash and
/// close-call counters are left alone.
pub proof fn lemma_pass_counters(s: Statistics, vs: Seq<Vehicle>, ms: Seq<Motion>, now: u64, k: int, d: int)
    requires
        0 <= d,
        s.total_passed + d <= usize::MAX,
    ensures
        ({
            let f = exit_stats(s, vs, ms, now, k).with_passed(d);
            &&& f.total_passed == s.total_passed + d
            &&& f.max_passed >= s.max_passed
            &&& (s.max_passed >= s.total_passed ==> f.max_passed >= f.total_passed)
            &&& f.close_calls == s.close_calls
            &&& f.crashes == s.crashes
        }),
{
    lemma_exit_stats_counts(s, vs, ms, now, k);
}

proof fn lemma_count_update(vs: Seq<Vehicle>, x: int, v: Vehicle)
    requires
        0 <= x < vs.len(),
    ensures
        count_crashed(vs.update(x, v)) + (if vs[x].crashed { 1int } else { 0int })
            == count_crashed(vs) + (if v.crashed { 1int } else { 0int }),
    decreases vs.len(),
{
    let u = vs.update(x, v);
    if x == vs.len() - 1 {
        assert(u.drop_last() =~= vs.drop_last());
    } else {
        assert(u.drop_last() =~= vs.drop_last().update(x, v));
        lemma_count_update(vs.drop_last(), x, v);
    }
}

/// Every crash found marks exactly two vehicles that had not crashed
/// before: the number of crashed vehicles grows by twice the number of
/// crashes counted, crash flags are never cleared, and nothing else about
/// any vehicle changes.
pub proof fn lemma_crash_marks_two(vs: Seq<Vehicle>, d: Seq<Vec<u64>>, i: int, j: int)
    requires
        0 <= i,
    ensures
        ({
            let r = crash_scan(vs, d, i, j);
            &&& r.0.len() == vs.len()
            &&& count_crashed(r.0) == count_crashed(vs) + 2 * r.1
            &&& forall|x: int| 0 <= x < vs.len() ==> same_but_crash(#[trigger] r.0[x], vs[x])
            &&& forall|x: int| 0 <= x < vs.len() && vs[x].crashed ==> (#[trigger] r.0[x]).crashed
        }),
    decreases vs.len() - i, vs.len() - j,
{
    if i < 0 || i >= vs.len() {
    } else if j >= vs.len() {
        lemma_crash_marks_two(vs, d, i + 1, i + 2);
    } else if 0 <= j && crash_pair(vs, d, i, j) {
        let v1 = vs.update(i, mark_crashed(vs[i]));
        let vs2 = v1.update(j, mark_crashed(vs[j]));
        assert(i != j);
        lemma_count_update(vs, i, mark_crashed(vs[i]));
        lemma_count_update(v1, j, mark_crashed(vs[j]));
        lemma_crash_marks_two(vs2, d, i, j + 1);
        let r = crash_scan(vs2, d, i, j + 1);
        assert forall|x: int| 0 <= x < vs.len() implies same_but_crash(#[trigger] r.0[x], vs[x]) by {
            assert(same_but_crash(r.0[x], vs2[x]));
        }
        assert forall|x: int| 0 <= x < vs.len() && vs[x].crashed implies (#[trigger] r.0[x]).crashed by {
            assert(vs2[x].crashed);
        }
    } else {
        lemma_crash_marks_two(vs, d, i, j + 1);
    }
}

/// Pairs in the same lane are never counted: the close calls and crashes
/// found do not depend on the distances given for same-lane pairs.
pub proof fn lemma_same_lane_ignored(vs: Seq<Vehicle>, d1: Seq<Vec<u64>>, d2: Seq<Vec<u64>>, i: int, j: int)
    requires
        0 <= i < j,
        forall|x: int, y: int| 0 <= x < y < vs.len() && !same_lane_spec(vs[x], vs[y])
            ==> #[trigger] d1[x]@[y] == #[trigger] d2[x]@[y],
    ensures
        crash_scan(vs, d1, i, j) == crash_scan(vs, d2, i, j),
        close_pairs(vs, d1, i, j) == close_pairs(vs, d2, i, j),
    decreases vs.len() - i, vs.len() - j,
{
    if i >= vs.len() {
    } else if j >= vs.len() {
        lemma_same_lane_ignored(vs, d1, d2, i + 1, i + 2);
    } else {
        lemma_same_lane_ignored(vs, d1, d2, i, j + 1);
        if crash_pair(vs, d1, i, j) {
            let vs2 = vs.update(i, mark_crashed(vs[i])).update(j, mark_crashed(vs[j]));
            assert forall|x: int, y: int| 0 <= x < y < vs2.len() && !same_lane_spec(vs2[x], vs2[y])
                implies #[trigger] d1[x]@[y] == #[trigger] d2[x]@[y] by {
                assert(same_lane_spec(vs2[x], vs2[y]) == same_lane_spec(vs[x], vs[y]));
            }
            lemma_same_lane_ignored(vs2, d1, d2, i, j + 1);
        }
    }
}

/// Vehicles in different lanes keep at least `CRASH_DIST` apart: for every
/// pair `i < j` of vehicles of `vs` in different lanes, `d[i][j]` is at
/// least `CRASH_DIST`.
pub open spec fn no_contact(vs: Seq<Vehicle>, d: Seq<Vec<u64>>) -> bool {
    forall|i: int, j: int| 0 <= i < j < vs.len() && !same_lane_spec(vs[i], vs[j])
        ==> #[trigger] d[i]@[j] >= CRASH_DIST as u64
}

/// No vehicle of `vs` has crashed.
pub open spec fn none_crashed(vs: Seq<Vehicle>) -> bool {
    forall|i: int| 0 <= i < vs.len() ==> !(#[trigger] vs[i]).crashed
}

proof fn lemma_scan_without_contact(vs: Seq<Vehicle>, d: Seq<Vec<u64>>, i: int, j: int)
    requires
        0 <= i < j,
        no_contact(vs, d),
    ensures
        crash_scan(vs, d, i, j) == (vs, 0nat),
    decreases vs.len() - i, vs.len() - j,
{
    if i >= vs.len() {
    } else if j >= vs.len() {
        lemma_scan_without_contact(vs, d, i + 1, i + 2);
    } else {
        if !same_lane_spec(vs[i], vs[j]) {
            assert(d[i]@[j] >= CRASH_DIST as u64);
        }
        lemma_scan_without_contact(vs, d, i, j + 1);
    }
}

/// Crashes come only from contact: when vehicles in different lanes keep
/// at least `CRASH_DIST` apart, the conflict scan finds no crash and marks
/// no vehicle. Since the speed decision, the frame's move and phase
/// transition, and spawning a fresh vehicle never set a crash flag, a road
/// that starts empty stays free of crashes for as long as this holds in
/// every frame.
pub proof fn lemma_no_crash_without_contact(vs: Seq<Vehicle>, d: Seq<Vec<u64>>, m: Motion, now: u64, last: u64, gap: u64, overlaps: Seq<bool>)
    requires
        no_contact(vs, d),
    ensures
        crash_scan(vs, d, 0, 1) == (vs, 0nat),
        none_crashed(vs) ==> none_crashed(crash_scan(vs, d, 0, 1).0),
        forall|v: Vehicle| #[trigger] speed_decided(v, last, now, gap, overlaps).crashed == v.crashed,
        forall|v: Vehicle| #[trigger] advanced(v, m, now).crashed == v.crashed,
        forall|v: Vehicle, id: u64, arm: Arm, turn: Turn| #[trigger] Vehicle::is_fresh(v, id, arm, turn) ==> !v.crashed,
{
    lemma_scan_without_contact(vs, d, 0, 1);
}

/// `select(s, keep, k)` keeps, in order, exactly the elements of the first
/// `k` of `s` whose flag is set.
proof fn lemma_select_from(s: Seq<Vehicle>, keep: Seq<bool>, k: int)
    requires
        0 <= k <= s.len(),
        k <= keep.len(),
    ensures
        select(s, keep, k).len() <= k,
        forall|a: int| #![trigger select(s, keep, k)[a]] 0 <= a < select(s, keep, k).len() ==>
            exists|i: int| #![trigger s[i]] 0 <= i < k && keep[i] && select(s, keep, k)[a] == s[i],
    decreases k,
{
    if k > 0 {
        lemma_select_from(s, keep, k - 1);
        let r = select(s, keep, k - 1);
        let t = select(s, keep, k);
        if keep[k - 1] {
            assert(t == r.push(s[k - 1]));
        } else {
            assert(t == r);
        }
        assert forall|a: int| #![trigger t[a]] 0 <= a < t.len() implies
            exists|i: int| #![trigger s[i]] 0 <= i < k && keep[i] && t[a] == s[i] by {
            if a < r.len() {
                assert(t[a] == r[a]);
                let i = choose|i: int| #![trigger s[i]] 0 <= i < k - 1 && keep[i] && r[a] == s[i];
                assert(0 <= i < k && keep[i] && t[a] == s[i]);
            } else {
                assert(keep[k - 1] && t[a] == s[k - 1]);
            }
        }
    }
}

/// Phases only move forwards over a frame: every vehicle left on the road
/// after `advance` is one of the vehicles before it, moved on by one frame,
/// with the same identifier and lane, and its phase either unchanged or one
/// step further (approaching to crossing with the entry time set, crossing
/// to exiting with the exit time set).
pub proof fn lemma_frame_phases_forward(vs: Seq<Vehicle>, ms: Seq<Motion>, now: u64)
    ensures
        forall|a: int| #![trigger select(advanced_all(vs, ms, now), staying(vs, ms), vs.len() as int)[a]]
            0 <= a < select(advanced_all(vs, ms, now), staying(vs, ms), vs.len() as int).len() ==>
            exists|i: int| #![trigger vs[i]] 0 <= i < vs.len() && !finishes(vs[i], ms[i]) && {
                let w = select(advanced_all(vs, ms, now), staying(vs, ms), vs.len() as int)[a];
                &&& w == advanced(vs[i], ms[i], now)
                &&& w.id == vs[i].id && w.arm == vs[i].arm && w.turn == vs[i].turn
                &&& phase_rank(vs[i].phase) <= phase_rank(w.phase) <= phase_rank(vs[i].phase) + 1
                &&& (w.phase == Phase::Crossing && vs[i].phase != Phase::Crossing ==> w.entry_t == Some(now))
                &&& (w.phase == Phase::Exiting && vs[i].phase != Phase::Exiting ==> w.exit_t == Some(now))
                &&& (w.phase == vs[i].phase ==> w.entry_t == vs[i].entry_t && w.exit_t == vs[i].exit_t)
            },
{
    let all = advanced_all(vs, ms, now);
    let keep = staying(vs, ms);
    lemma_select_from(all, keep, vs.len() as int);
    let out = select(all, keep, vs.len() as int);
    assert forall|a: int| #![trigger out[a]] 0 <= a < out.len() implies
        exists|i: int| #![trigger vs[i]] 0 <= i < vs.len() && !finishes(vs[i], ms[i]) && {
            let w = out[a];
            &&& w == advanced(vs[i], ms[i], now)
            &&& w.id == vs[i].id && w.arm == vs[i].arm && w.turn == vs[i].turn
            &&& phase_rank(vs[i].phase) <= phase_rank(w.phase) <= phase_rank(vs[i].phase) + 1
            &&& (w.phase == Phase::Crossing && vs[i].phase != Phase::Crossing ==> w.entry_t == Some(now))
            &&& (w.phase == Phase::Exiting && vs[i].phase != Phase::Exiting ==> w.exit_t == Some(now))
            &&& (w.phase == vs[i].phase ==> w.entry_t == vs[i].entry_t && w.exit_t == vs[i].exit_t)
        } by {
        let i = choose|i: int| #![trigger all[i]] 0 <= i < vs.len() && keep[i] && out[a] == all[i];
        lemma_phase_forward(vs[i], ms[i], now);
        assert(all[i] == advanced(vs[i], ms[i], now));
    }
}

/// The cooldown starts at spawn: a vehicle spawned at `t0` onto the road
/// `w` keeps its speed, and its timer keeps `t0`, at every speed decision
/// made before `t0 + VELOCITY_COOLDOWN_NS`, whatever is sensed then.
pub proof fn lemma_spawn_starts_cooldown(w: WorldView, v: Vehicle, t0: u64, now: u64, gap: u64, overlaps: Seq<bool>)
    requires
        w.wf(),
        now < t0 + VELOCITY_COOLDOWN_NS,
    ensures
        ({
            let vs = w.vehicles.push(v);
            let ts = w.vel_timers.push((v.id, t0));
            let k = w.vehicles.len() as int;
            &&& speed_decided(vs[k], ts[k].1, now, gap, overlaps) == v
            &&& timer_after(ts[k], now) == (v.id, t0)
        }),
{
}

/// What one speed decision does to a vehicle whose timer was last set at
/// `last`: once `VELOCITY_COOLDOWN_NS` have passed, the speed becomes the
/// one the ladder gives for its phase and sensing, and an exiting vehicle
/// always drives at `SPD_FAST`, whatever its speed was; before that the
/// vehicle is left exactly as it was. Nothing but the speed ever changes.
pub proof fn lemma_decision_outcome(v: Vehicle, last: u64, now: u64, gap: u64, overlaps: Seq<bool>)
    ensures
        ({
            let w = speed_decided(v, last, now, gap, overlaps);
            let open = now >= last && now - last >= VELOCITY_COOLDOWN_NS;
            &&& open ==> w.spd_px == decide_speed_spec(v.phase, gap, overlaps)
            &&& open && v.phase == Phase::Exiting ==> w.spd_px == SPD_FAST
            &&& !open ==> w == v
            &&& w.id == v.id && w.arm == v.arm && w.turn == v.turn && w.phase == v.phase
            &&& w.crashed == v.crashed && w.max_spd == v.max_spd && w.min_spd == v.min_spd
            &&& w.entry_t == v.entry_t && w.exit_t == v.exit_t
        }),
{
}

/// When the `k`-th vehicle of a frame is crossing and ends the frame out of
/// the box, its transit time (if known) and its top speed after the move
/// are recorded: `vel_sum` grows by exactly that top speed, `vel_count` by
/// one, and `max_spd` becomes at least that top speed. The top speed is the
/// largest speed the vehicle has moved at, counting this frame's move. Its
/// time in the box, from its entry to `now`, is taken into the longest and
/// shortest transit times. Otherwise the statistics are left alone.
pub proof fn lemma_exit_records_top_speed(s: Statistics, vs: Seq<Vehicle>, ms: Seq<Motion>, now: u64, k: int)
    requires
        1 <= k <= vs.len(),
    ensures
        ({
            let v = vs[k - 1];
            let m = ms[k - 1];
            let before = exit_stats(s, vs, ms, now, k - 1);
            let after = exit_stats(s, vs, ms, now, k);
            let top: u32 = if v.spd_px > 0 && !m.finished && v.spd_px > v.max_spd { v.spd_px } else { v.max_spd };
            &&& (v.phase == Phase::Crossing && !m.in_box) ==> {
                &&& before.vel_sum + top <= u64::MAX ==> after.vel_sum == before.vel_sum + top
                &&& before.vel_count + 1 <= usize::MAX ==> after.vel_count == before.vel_count + 1
                &&& after.max_spd >= top
                &&& after.max_spd >= before.max_spd
                &&& (after.max_spd == top || after.max_spd == before.max_spd)
                &&& (v.entry_t is Some && v.entry_t.unwrap() <= now) ==> {
                    &&& after.max_time >= now - v.entry_t.unwrap()
                    &&& after.min_time <= now - v.entry_t.unwrap()
                    &&& (after.max_time == now - v.entry_t.unwrap() || after.max_time == before.max_time)
                }
                &&& v.entry_t is None ==> after.max_time == before.max_time && after.min_time == before.min_time
            }
            &&& !(v.phase == Phase::Crossing && !m.in_box) ==> after == before
        }),
{
}

proof fn lemma_count_pos(vs: Seq<Vehicle>, x: int)
    requires
        0 <= x < vs.len(),
        vs[x].crashed,
    ensures
        count_crashed(vs) > 0,
    decreases vs.len(),
{
    if x < vs.len() - 1 {
        lemma_count_pos(vs.drop_last(), x);
    }
}

/// Scanning the pairs from `(i, j)` on, every pair `(a, b)` reached, with
/// `a < b`, whose vehicles differ in arm or in turn and are closer than
/// `CRASH_DIST`, ends with at least one of the two marked crashed: if
/// neither had crashed when the pair came up, the pair crashes then.
proof fn lemma_scan_marks_contact(vs: Seq<Vehicle>, d: Seq<Vec<u64>>, i: int, j: int)
    requires
        0 <= i < j,
    ensures
        forall|a: int, b: int|
            #![trigger crash_scan(vs, d, i, j).0[a], crash_scan(vs, d, i, j).0[b]]
            (i < a || (a == i && j <= b)) && a < b < vs.len()
            && (vs[a].arm != vs[b].arm || vs[a].turn != vs[b].turn)
            && d[a]@[b] < CRASH_DIST as u64
            ==> crash_scan(vs, d, i, j).0[a].crashed || crash_scan(vs, d, i, j).0[b].crashed,
    decreases vs.len() - i, vs.len() - j,
{
    if i >= vs.len() {
    } else if j >= vs.len() {
        lemma_scan_marks_contact(vs, d, i + 1, i + 2);
    } else if crash_pair(vs, d, i, j) {
        let vs2 = vs.update(i, mark_crashed(vs[i])).update(j, mark_crashed(vs[j]));
        lemma_scan_marks_contact(vs2, d, i, j + 1);
        lemma_crash_marks_two(vs2, d, i, j + 1);
        let r = crash_scan(vs2, d, i, j + 1);
        assert(crash_scan(vs, d, i, j).0 == r.0);
        assert(r.0[i].crashed && r.0[j].crashed) by {
            assert(vs2[i].crashed && vs2[j].crashed);
        }
        assert forall|a: int, b: int|
            (i < a || (a == i && j <= b)) && a < b < vs.len()
            && (vs[a].arm != vs[b].arm || vs[a].turn != vs[b].turn)
            && d[a]@[b] < CRASH_DIST as u64
            implies #[trigger] r.0[a].crashed || #[trigger] r.0[b].crashed by {
            assert(vs2[a].arm == vs[a].arm && vs2[a].turn == vs[a].turn);
            assert(vs2[b].arm == vs[b].arm && vs2[b].turn == vs[b].turn);
        }
    } else {
        lemma_scan_marks_contact(vs, d, i, j + 1);
        lemma_crash_marks_two(vs, d, i, j + 1);
        let r = crash_scan(vs, d, i, j + 1);
        assert(crash_scan(vs, d, i, j).0 == r.0);
        assert forall|a: int, b: int|
            (i < a || (a == i && j <= b)) && a < b < vs.len()
            && (vs[a].arm != vs[b].arm || vs[a].turn != vs[b].turn)
            && d[a]@[b] < CRASH_DIST as u64
            implies #[trigger] r.0[a].crashed || #[trigger] r.0[b].crashed by {
            if a == i && b == j {
                assert(vs[i].crashed || vs[j].crashed);
                assert(vs[a].crashed ==> r.0[a].crashed);
                assert(vs[b].crashed ==> r.0[b].crashed);
            }
        }
    }
}

/// Contact between lanes always ends in a crash: after the conflict scan,
/// of every two vehicles that differ in arm or in turn and are closer than
/// `CRASH_DIST`, at least one is marked crashed; and when no vehicle had
/// crashed before, such a pair makes the scan count at least one crash.
/// Vehicles of the same arm taking different turns are in different lanes.
pub proof fn lemma_contact_crashes(vs: Seq<Vehicle>, d: Seq<Vec<u64>>)
    ensures
        forall|a: int, b: int|
            #![trigger crash_scan(vs, d, 0, 1).0[a], crash_scan(vs, d, 0, 1).0[b]]
            0 <= a < b < vs.len()
            && (vs[a].arm != vs[b].arm || vs[a].turn != vs[b].turn)
            && d[a]@[b] < CRASH_DIST as u64
            ==> crash_scan(vs, d, 0, 1).0[a].crashed || crash_scan(vs, d, 0, 1).0[b].crashed,
        (none_crashed(vs) && exists|a: int, b: int|
            #![trigger vs[a], vs[b]]
            0 <= a < b < vs.len()
            && (vs[a].arm != vs[b].arm || vs[a].turn != vs[b].turn)
            && d[a]@[b] < CRASH_DIST as u64) ==> crash_scan(vs, d, 0, 1).1 >= 1,
{
    lemma_scan_marks_contact(vs, d, 0, 1);
    lemma_crash_marks_two(vs, d, 0, 1);
    let r = crash_scan(vs, d, 0, 1);
    if none_crashed(vs) && exists|a: int, b: int|
        #![trigger vs[a], vs[b]]
        0 <= a < b < vs.len()
        && (vs[a].arm != vs[b].arm || vs[a].turn != vs[b].turn)
        && d[a]@[b] < CRASH_DIST as u64 {
        let (a, b) = choose|a: int, b: int|
            #![trigger vs[a], vs[b]]
            0 <= a < b < vs.len()
            && (vs[a].arm != vs[b].arm || vs[a].turn != vs[b].turn)
            && d[a]@[b] < CRASH_DIST as u64;
        assert(r.0[a].crashed || r.0[b].crashed);
        assert(count_crashed(vs) == 0) by {
            lemma_count_zero(vs);
        }
        if r.0[a].crashed {
            lemma_count_pos(r.0, a);
        } else {
            lemma_count_pos(r.0, b);
        }
    }
}

proof fn lemma_count_zero(vs: Seq<Vehicle>)
    requires
        none_crashed(vs),
    ensures
        count_crashed(vs) == 0,
    decreases vs.len(),
{
    if vs.len() > 0 {
        assert(none_crashed(vs.drop_last())) by {
            assert forall|i: int| 0 <= i < vs.drop_last().len() implies !(#[trigger] vs.drop_last()[i]).crashed by {
                assert(vs.drop_last()[i] == vs[i]);
            }
        }
        lemma_count_zero(vs.drop_last());
        assert(!vs[vs.len() - 1].crashed);
    }
}

/// One frame's move and retirement, vehicle by vehicle: a vehicle leaves
/// the road exactly when it was moving and reached the end of its path; a
/// moving vehicle that stays notes its speed in its highest and lowest
/// speeds; a stopped vehicle notes nothing. An approaching vehicle that is
/// in the box starts crossing, with its entry time set to `now`; a crossing
/// vehicle out of the box starts exiting, with its exit time set to `now`;
/// every other vehicle keeps its phase and times. Identity, lane, speed and
/// crash flag never change.
pub proof fn lemma_frame_move(vs: Seq<Vehicle>, ms: Seq<Motion>, now: u64, i: int)
    requires
        0 <= i < vs.len(),
    ensures
        ({
            let v = vs[i];
            let m = ms[i];
            let w = advanced_all(vs, ms, now)[i];
            &&& staying(vs, ms)[i] <==> !(v.spd_px > 0 && m.finished)
            &&& w.id == v.id && w.arm == v.arm && w.turn == v.turn
            &&& w.spd_px == v.spd_px && w.crashed == v.crashed
            &&& (v.spd_px > 0 && !m.finished) ==> {
                &&& w.max_spd == (if v.spd_px > v.max_spd { v.spd_px } else { v.max_spd })
                &&& w.min_spd == (if v.spd_px < v.min_spd { v.spd_px } else { v.min_spd })
            }
            &&& v.spd_px == 0 ==> w.max_spd == v.max_spd && w.min_spd == v.min_spd
            &&& (v.phase == Phase::Approaching && m.in_box)
                ==> w.phase == Phase::Crossing && w.entry_t == Some(now) && w.exit_t == v.exit_t
            &&& (v.phase == Phase::Approaching && !m.in_box)
                ==> w.phase == Phase::Approaching && w.entry_t == v.entry_t && w.exit_t == v.exit_t
            &&& (v.phase == Phase::Crossing && !m.in_box)
                ==> w.phase == Phase::Exiting && w.exit_t == Some(now) && w.entry_t == v.entry_t
            &&& (v.phase == Phase::Crossing && m.in_box)
                ==> w.phase == Phase::Crossing && w.entry_t == v.entry_t && w.exit_t == v.exit_t
            &&& v.phase == Phase::Exiting
                ==> w.phase == Phase::Exiting && w.entry_t == v.entry_t && w.exit_t == v.exit_t
        }),
{
}

proof fn lemma_close_pairs_count(vs: Seq<Vehicle>, d: Seq<Vec<u64>>, i: int, j: int)
    requires
        0 <= i < j,
    ensures
        (forall|a: int, b: int| #![trigger d[a]@[b]]
            (i < a || (a == i && j <= b)) && a < b < vs.len()
            && (vs[a].arm != vs[b].arm || vs[a].turn != vs[b].turn)
            ==> d[a]@[b] >= CLOSE_CALL_DIST as u64) ==> close_pairs(vs, d, i, j) == 0,
        (exists|a: int, b: int| #![trigger d[a]@[b]]
            (i < a || (a == i && j <= b)) && a < b < vs.len()
            && (vs[a].arm != vs[b].arm || vs[a].turn != vs[b].turn)
            && d[a]@[b] < CLOSE_CALL_DIST as u64) ==> close_pairs(vs, d, i, j) >= 1,
    decreases vs.len() - i, vs.len() - j,
{
    if i >= vs.len() {
    } else if j >= vs.len() {
        lemma_close_pairs_count(vs, d, i + 1, i + 2);
    } else {
        lemma_close_pairs_count(vs, d, i, j + 1);
        if exists|a: int, b: int| #![trigger d[a]@[b]]
            (i < a || (a == i && j <= b)) && a < b < vs.len()
            && (vs[a].arm != vs[b].arm || vs[a].turn != vs[b].turn)
            && d[a]@[b] < CLOSE_CALL_DIST as u64 {
            let (a, b) = choose|a: int, b: int| #![trigger d[a]@[b]]
                (i < a || (a == i && j <= b)) && a < b < vs.len()
                && (vs[a].arm != vs[b].arm || vs[a].turn != vs[b].turn)
                && d[a]@[b] < CLOSE_CALL_DIST as u64;
            if a == i && b == j {
                assert(pair_close(vs, d, i, j));
            } else {
                assert(d[a]@[b] < CLOSE_CALL_DIST as u64);
            }
        }
    }
}

/// Close calls are exactly the near passes between lanes: a scan in which
/// every two vehicles that differ in arm or turn keep `CLOSE_CALL_DIST`
/// apart counts none, and a scan with such a pair closer counts at least
/// one.
pub proof fn lemma_close_calls_from_near_passes(vs: Seq<Vehicle>, d: Seq<Vec<u64>>)
    ensures
        (forall|a: int, b: int| #![trigger d[a]@[b]]
            0 <= a < b < vs.len() && (vs[a].arm != vs[b].arm || vs[a].turn != vs[b].turn)
            ==> d[a]@[b] >= CLOSE_CALL_DIST as u64) ==> close_pairs(vs, d, 0, 1) == 0,
        (exists|a: int, b: int| #![trigger d[a]@[b]]
            0 <= a < b < vs.len() && (vs[a].arm != vs[b].arm || vs[a].turn != vs[b].turn)
            && d[a]@[b] < CLOSE_CALL_DIST as u64) ==> close_pairs(vs, d, 0, 1) >= 1,
{
    lemma_close_pairs_count(vs, d, 0, 1);
}

/// A spawn is allowed exactly when every vehicle already in the new
/// vehicle's lane (same arm and same turn), whatever its phase, is at least
/// `SPAWN_GAP` from the spawn point.
pub proof fn lemma_spawn_gap(vs: Seq<Vehicle>, v: Vehicle, near: Seq<u64>)
    ensures
        spawn_clear(vs, v, near) <==> forall|i: int| 0 <= i < vs.len()
            && (#[trigger] vs[i]).arm == v.arm && vs[i].turn == v.turn ==> near[i] >= SPAWN_GAP as u64,
{
}

/// The position in `timers` of the timer of the vehicle with identifier `id`.
fn timer_index(timers: &Vec<(u64, u64)>, id: u64) -> (r: Option<usize>)
    ensures
        match r {
            Some(j) => j < timers.len() && timers@[j as int].0 == id
                && forall|k: int| 0 <= k < j ==> (#[trigger] timers@[k]).0 != id,
            None => forall|k: int| 0 <= k < timers.len() ==> (#[trigger] timers@[k]).0 != id,
        },
{
    let mut j: usize = 0;
    while j < timers.len()
        invariant
            j <= timers.len(),
            forall|k: int| 0 <= k < j ==> (#[trigger] timers@[k]).0 != id,
        decreases timers.len() - j,
    {
        if timers[j].0 == id {
            return Some(j);
        }
        j = j + 1;
    }
    None
}

impl World {
    /// An empty road.
    pub fn new() -> (w: World)
        ensures
            w@.wf(),
            w@.vehicles.len() == 0,
            w@.total_passed == 0,
    {
        World { vehicles: Vec::new(), total_passed: 0, vel_timers: Vec::new() }
    }

    /// The vehicles on the road, in spawn order.
    pub fn vehicles(&self) -> (vs: &Vec<Vehicle>)
        ensures
            vs@ == self@.vehicles,
            ids_unique(vs@),
    {
        proof {
            use_type_invariant(self);
        }
        &self.vehicles
    }

    /// Number of vehicles that have left the road so far.
    pub fn total_passed(&self) -> (n: usize)
        ensures
            n == self@.total_passed,
    {
        self.total_passed
    }

    /// Whether a vehicle with identifier `id` is on the road.
    pub fn has_id(&self, id: u64) -> (r: bool)
        ensures
            r == !self@.id_free(id),
    {
        let mut i: usize = 0;
        while i < self.vehicles.len()
            invariant
                i <= self.vehicles.len(),
                forall|k: int| 0 <= k < i ==> (#[trigger] self.vehicles@[k]).id != id,
            decreases self.vehicles.len() - i,
        {
            if self.vehicles[i].id == id {
                return true;
            }
            i = i + 1;
        }
        false
    }


    /// Adds `v`, with a speed timer set at `now`, unless a vehicle in the
    /// same lane is closer than `SPAWN_GAP` to its spawn point: `near[i]` is
    /// the floored distance from the `i`-th vehicle to that point. A vehicle
    /// whose identifier is already on the road is not added either (fresh
    /// identifiers from an `IdSource` never are). Returns whether `v` was
    /// added.
    pub fn spawn(&mut self, v: Vehicle, near: &Vec<u64>, now: u64) -> (added: bool)
        requires
            near.len() == old(self)@.vehicles.len(),
        ensures
            final(self)@.wf(),
            added == (old(self)@.id_free(v.id) && spawn_clear(old(self)@.vehicles, v, near@)),
            added ==> final(self)@ == (WorldView {
                vehicles: old(self)@.vehicles.push(v),
                vel_timers: old(self)@.vel_timers.push((v.id, now)),
                ..old(self)@
            }),
            !added ==> final(self)@ == old(self)@,
    {
        proof {
            use_type_invariant(&*self);
        }
        if self.has_id(v.id) {
            return false;
        }
        let mut i: usize = 0;
        while i < self.vehicles.len()
            invariant
                i <= self.vehicles.len(),
                near.len() == self.vehicles.len(),
                old(self)@.id_free(v.id),
                self@ == old(self)@,
                self@.wf(),
                forall|k: int| 0 <= k < i ==>
                    !(same_lane_spec(#[trigger] self.vehicles@[k], v) && near@[k] < SPAWN_GAP as u64),
            decreases self.vehicles.len() - i,
        {
            if same_lane(&self.vehicles[i], &v) {
                if near[i] < SPAWN_GAP as u64 {
                    return false;
                }
            }
            i = i + 1;
        }
        let mut taken = World::new();
        std::mem::swap(self, &mut taken);
        let World { vehicles: mut vs, total_passed, vel_timers: mut ts } = taken;
        ts.push((v.id, now));
        vs.push(v);
        proof {
            let new_vs = vs@;
            assert forall|a: int, b: int| 0 <= a < new_vs.len() && 0 <= b < new_vs.len() && a != b
                implies #[trigger] new_vs[a].id != #[trigger] new_vs[b].id by {
                if a == new_vs.len() - 1 {
                    assert(old(self)@.vehicles[b] == new_vs[b]);
                } else if b == new_vs.len() - 1 {
                    assert(old(self)@.vehicles[a] == new_vs[a]);
                } else {
                    assert(old(self)@.vehicles[a] == new_vs[a]);
                    assert(old(self)@.vehicles[b] == new_vs[b]);
                }
            }
        }
        *self = World { vehicles: vs, total_passed, vel_timers: ts };
        true
    }

    /// The speed decision of one frame at time `now`. For every vehicle
    /// whose cooldown has run out, the speed becomes what `decide_speed`
    /// makes of its phase, `lane_gaps[i]` and `overlaps[i]`, and its timer
    /// is set to `now`; every other vehicle keeps its speed and its timer.
    pub fn decide_speeds(&mut self, now: u64, lane_gaps: &Vec<u64>, overlaps: &Vec<Vec<bool>>)
        requires
            lane_gaps.len() == old(self)@.vehicles.len(),
            overlaps.len() == old(self)@.vehicles.len(),
            forall|i: int| 0 <= i < overlaps.len() ==> (#[trigger] overlaps@[i]).len() == HB_LEVELS,
        ensures
            final(self)@.wf(),
            final(self)@.total_passed == old(self)@.total_passed,
            final(self)@.vehicles.len() == old(self)@.vehicles.len(),
            final(self)@.vel_timers.len() == old(self)@.vel_timers.len(),
            forall|i: int| 0 <= i < old(self)@.vehicles.len() ==>
                #[trigger] final(self)@.vehicles[i] == speed_decided(
                    old(self)@.vehicles[i],
                    old(self)@.vel_timers[i].1,
                    now,
                    lane_gaps@[i],
                    overlaps@[i]@,
                ),
            forall|i: int| 0 <= i < old(self)@.vel_timers.len() ==>
                #[trigger] final(self)@.vel_timers[i] == timer_after(old(self)@.vel_timers[i], now),
    {
        proof {
            use_type_invariant(&*self);
        }
        let mut taken = World::new();
        std::mem::swap(self, &mut taken);
        let World { vehicles: mut vs, total_passed, vel_timers: mut ts } = taken;
        let ghost old_vs = vs@;
        let ghost old_ts = ts@;
        let n = vs.len();
        let mut i: usize = 0;
        while i < n
            invariant
                n == vs.len(),
                n == old_vs.len(),
                i <= n,
                total_passed == old(self)@.total_passed,
                lane_gaps.len() == n,
                overlaps.len() == n,
                forall|k: int| 0 <= k < n ==> (#[trigger] overlaps@[k]).len() == HB_LEVELS,
                ids_unique(old_vs),
                timers_match(old_vs, old_ts),
                ts@.len() == n,
                forall|k: int| 0 <= k < i ==>
                    #[trigger] vs@[k] == speed_decided(old_vs[k], old_ts[k].1, now, lane_gaps@[k], overlaps@[k]@),
                forall|k: int| i <= k < n ==> #[trigger] vs@[k] == old_vs[k],
                forall|k: int| 0 <= k < i ==> #[trigger] ts@[k] == timer_after(old_ts[k], now),
                forall|k: int| i <= k < n ==> #[trigger] ts@[k] == old_ts[k],
            decreases n - i,
        {
            let vid = vs[i].id;
            let timer_idx = timer_index(&ts, vid);
            proof {
                assert(ts@[i as int].0 == vid);
                match timer_idx {
                    Some(t) => {
                        if t != i {
                            assert(ts@[t as int].0 == old_vs[t as int].id);
                            assert(old_vs[i as int].id != old_vs[t as int].id);
                        }
                    },
                    None => {},
                }
            }
            let can_update = match timer_idx {
                Some(t) => {
                    let last = ts[t].1;
                    now >= last && now - last >= VELOCITY_COOLDOWN_NS
                },
                None => true,
            };
            if can_update {
                let mut v = vs[i];
                v.spd_px = decide_speed(v.phase, lane_gaps[i], &overlaps[i]);
                vs.set(i, v);
                match timer_idx {
                    Some(t) => {
                        let id = ts[t].0;
                        ts.set(t, (id, now));
                    },
                    None => {},
                }
            }
            i = i + 1;
        }
        proof {
            let new_vs = vs@;
            assert forall|a: int, b: int| 0 <= a < new_vs.len() && 0 <= b < new_vs.len() && a != b
                implies #[trigger] new_vs[a].id != #[trigger] new_vs[b].id by {
                assert(new_vs[a].id == old_vs[a].id);
                assert(new_vs[b].id == old_vs[b].id);
            }
            assert forall|k: int| 0 <= k < new_vs.len() implies (#[trigger] ts@[k]).0 == new_vs[k].id by {
                assert(new_vs[k].id == old_vs[k].id);
            }
        }
        *self = World { vehicles: vs, total_passed, vel_timers: ts };
    }
    /// The rest of a frame after the caller has moved every vehicle whose
    /// speed is positive: `motions[i]` tells whether the `i`-th vehicle
    /// reached the end of its path and whether it now stands in the
    /// intersection box. Each vehicle notes its speed or finishes, then makes
    /// its phase transition; vehicles leaving the box have their transit time
    /// and speeds recorded; finished vehicles leave the road with their
    /// timers and count as passed. Returns, per vehicle, whether it stays.
    pub fn advance(&mut self, now: u64, motions: &Vec<Motion>, stats: &mut Statistics) -> (kept: Vec<bool>)
        requires
            motions.len() == old(self)@.vehicles.len(),
            old(stats).has_room(old(self)@.vehicles.len() as int),
        ensures
            final(self)@.wf(),
            kept@ == staying(old(self)@.vehicles, motions@),
            final(self)@.vehicles == select(
                advanced_all(old(self)@.vehicles, motions@, now),
                kept@,
                old(self)@.vehicles.len() as int,
            ),
            final(self)@.vel_timers == select(old(self)@.vel_timers, kept@, old(self)@.vehicles.len() as int),
            *final(stats) == exit_stats(*old(stats), old(self)@.vehicles, motions@, now, old(self)@.vehicles.len() as int)
                .with_passed(old(self)@.vehicles.len() - final(self)@.vehicles.len()),
            final(self)@.total_passed == final(stats).total_passed,
            final(self)@.vehicles.len() + final(stats).total_passed
                == old(self)@.vehicles.len() + old(stats).total_passed,
    {
        proof {
            use_type_invariant(&*self);
        }
        let mut taken = World::new();
        std::mem::swap(self, &mut taken);
        let World { vehicles: mut vs, total_passed: _, vel_timers: ts } = taken;
        let ghost old_vs = vs@;
        let ghost old_ts = ts@;
        let ghost old_stats = *stats;
        proof {
            lemma_exit_stats_counts(old_stats, old_vs, motions@, now, old_vs.len() as int);
        }
        let n = vs.len();
        let mut done: Vec<bool> = Vec::new();
        let mut i: usize = 0;
        while i < n
            invariant
                n == vs.len(),
                n == old_vs.len(),
                n == motions.len(),
                i <= n,
                ids_unique(old_vs),
                timers_match(old_vs, old_ts),
                ts@ == old_ts,
                forall|k: int| 0 <= k < i ==>
                    #[trigger] vs@[k] == advanced(old_vs[k], motions@[k], now),
                forall|k: int| i <= k < n ==> #[trigger] vs@[k] == old_vs[k],
                done@.len() == i,
                forall|k: int| 0 <= k < i ==> #[trigger] done@[k] == finishes(old_vs[k], motions@[k]),
                old_stats.has_room(n as int),
                *stats == exit_stats(old_stats, old_vs, motions@, now, i as int),
                stats.total_passed == old_stats.total_passed,
                stats.max_passed == old_stats.max_passed,
                stats.vel_sum <= old_stats.vel_sum + i * (u32::MAX as int),
                stats.vel_count <= old_stats.vel_count + i,
            decreases n - i,
        {
            let m = motions[i];
            let mut w = vs[i];
            let mut fin = false;
            if w.spd_px > 0 {
                if m.finished {
                    fin = true;
                } else {
                    w.record_speed();
                }
            }
            if w.phase == Phase::Approaching && m.in_box {
                w.phase = Phase::Crossing;
                w.entry_t = Some(now);
            }
            if w.phase == Phase::Crossing && !m.in_box {
                w.phase = Phase::Exiting;
                w.exit_t = Some(now);
                match w.elapsed() {
                    Some(t) => stats.record_time(t),
                    None => {},
                }
                stats.record_spd(w.max_spd, w.min_spd_d());
            }
            vs.set(i, w);
            done.push(fin);
            i = i + 1;
        }
        let ghost stepped = vs@;
        let ghost mid = *stats;
        let ghost keep = staying(old_vs, motions@);
        assert(stepped == advanced_all(old_vs, motions@, now));
        let mut vs2: Vec<Vehicle> = Vec::new();
        let mut ts2: Vec<(u64, u64)> = Vec::new();
        let mut kept: Vec<bool> = Vec::new();
        let ghost mut idx: Seq<int> = Seq::empty();
        let mut i: usize = 0;
        while i < n
            invariant
                n == vs.len(),
                n == old_vs.len(),
                n == motions.len(),
                n == done@.len(),
                i <= n,
                vs@ == stepped,
                ts@ == old_ts,
                stepped == advanced_all(old_vs, motions@, now),
                keep == staying(old_vs, motions@),
                forall|k: int| 0 <= k < n ==> #[trigger] done@[k] == finishes(old_vs[k], motions@[k]),
                ids_unique(old_vs),
                timers_match(old_vs, old_ts),
                kept@ == keep.take(i as int),
                vs2@ == select(stepped, keep, i as int),
                ts2@ == select(old_ts, keep, i as int),
                vs2@.len() == idx.len(),
                ts2@.len() == idx.len(),
                idx.len() <= i,
                forall|a: int| 0 <= a < idx.len() ==> 0 <= #[trigger] idx[a] < i,
                forall|a: int, b: int| 0 <= a < b < idx.len() ==> #[trigger] idx[a] < #[trigger] idx[b],
                forall|a: int| 0 <= a < idx.len() ==> #[trigger] vs2@[a] == stepped[idx[a]],
                forall|a: int| 0 <= a < idx.len() ==> #[trigger] ts2@[a] == old_ts[idx[a]],
                old_stats.has_room(n as int),
                mid.total_passed == old_stats.total_passed,
                *stats == mid.with_passed(i - vs2@.len()),
            decreases n - i,
        {
            if done[i] {
                stats.total_passed = stats.total_passed + 1;
                if stats.total_passed > stats.max_passed {
                    stats.max_passed = stats.total_passed;
                }
                kept.push(false);
            } else {
                vs2.push(vs[i]);
                ts2.push(ts[i]);
                kept.push(true);
                proof {
                    idx = idx.push(i as int);
                }
            }
            proof {
                assert(kept@ =~= keep.take(i + 1));
            }
            i = i + 1;
        }
        proof {
            assert(kept@ =~= keep);
            let new_vs = vs2@;
            assert forall|a: int, b: int| 0 <= a < new_vs.len() && 0 <= b < new_vs.len() && a != b
                implies #[trigger] new_vs[a].id != #[trigger] new_vs[b].id by {
                assert(new_vs[a].id == old_vs[idx[a]].id);
                assert(new_vs[b].id == old_vs[idx[b]].id);
                assert(idx[a] != idx[b]) by {
                    if a < b { assert(idx[a] < idx[b]); } else { assert(idx[b] < idx[a]); }
                }
            }
            assert forall|a: int| 0 <= a < new_vs.len() implies (#[trigger] ts2@[a]).0 == new_vs[a].id by {
                assert(old_ts[idx[a]].0 == old_vs[idx[a]].id);
            }
        }
        *self = World { vehicles: vs2, total_passed: stats.total_passed, vel_timers: ts2 };
        kept
    }
    /// Counts close calls and crashes between every pair of vehicles on
    /// different lanes, in pair order: `dist[i][j]` is the floored distance
    /// between vehicles `i` and `j` (`i < j`). A pair closer than
    /// `CLOSE_CALL_DIST` is a close call; a pair closer than `CRASH_DIST`
    /// of which neither vehicle has crashed is a crash, and marks both.
    pub fn scan_conflicts(&mut self, dist: &Vec<Vec<u64>>, stats: &mut Statistics)
        requires
            dist.len() == old(self)@.vehicles.len(),
            forall|i: int| 0 <= i < dist.len() ==> (#[trigger] dist@[i]).len() == old(self)@.vehicles.len(),
            old(stats).has_room(old(self)@.vehicles.len() as int),
        ensures
            final(self)@.wf(),
            final(self)@.vehicles == crash_scan(old(self)@.vehicles, dist@, 0, 1).0,
            final(self)@.vel_timers == old(self)@.vel_timers,
            final(self)@.total_passed == old(self)@.total_passed,
            *final(stats) == (Statistics {
                close_calls: (old(stats).close_calls + close_pairs(old(self)@.vehicles, dist@, 0, 1)) as usize,
                crashes: (old(stats).crashes + crash_scan(old(self)@.vehicles, dist@, 0, 1).1) as usize,
                ..*old(stats)
            }),
    {
        proof {
            use_type_invariant(&*self);
        }
        let mut taken = World::new();
        std::mem::swap(self, &mut taken);
        let World { vehicles: mut vs, total_passed, vel_timers: ts } = taken;
        let ghost old_vs = vs@;
        let ghost old_stats = *stats;
        let ghost total = crash_scan(old_vs, dist@, 0, 1);
        let ghost total_close = close_pairs(old_vs, dist@, 0, 1);
        let n = vs.len();
        let mut i: usize = 0;
        while i < n
            invariant
                n == vs.len(),
                n == old_vs.len(),
                n == dist.len(),
                forall|k: int| 0 <= k < n ==> (#[trigger] dist@[k]).len() == n,
                i <= n,
                ids_unique(old_vs),
                timers_match(old_vs, ts@),
                ts@ == old(self)@.vel_timers,
                total_passed == old(self)@.total_passed,
                forall|k: int| 0 <= k < n ==> same_but_crash(#[trigger] vs@[k], old_vs[k]),
                crash_scan(vs@, dist@, i as int, i + 1).0 == total.0,
                stats.crashes - old_stats.crashes + crash_scan(vs@, dist@, i as int, i + 1).1 == total.1,
                stats.close_calls - old_stats.close_calls + close_pairs(old_vs, dist@, i as int, i + 1) == total_close,
                *stats == (Statistics { close_calls: stats.close_calls, crashes: stats.crashes, ..old_stats }),
                old_stats.has_room(n as int),
                stats.close_calls <= old_stats.close_calls + i * n,
                stats.crashes <= old_stats.crashes + i,
            decreases n - i,
        {
            let mut j: usize = i + 1;
            while j < n
                invariant
                    n == vs.len(),
                    n == old_vs.len(),
                    n == dist.len(),
                    forall|k: int| 0 <= k < n ==> (#[trigger] dist@[k]).len() == n,
                    i < n,
                    i < j <= n,
                    ids_unique(old_vs),
                    timers_match(old_vs, ts@),
                    ts@ == old(self)@.vel_timers,
                    total_passed == old(self)@.total_passed,
                    forall|k: int| 0 <= k < n ==> same_but_crash(#[trigger] vs@[k], old_vs[k]),
                    crash_scan(vs@, dist@, i as int, j as int).0 == total.0,
                    stats.crashes - old_stats.crashes + crash_scan(vs@, dist@, i as int, j as int).1 == total.1,
                    stats.close_calls - old_stats.close_calls + close_pairs(old_vs, dist@, i as int, j as int) == total_close,
                    *stats == (Statistics { close_calls: stats.close_calls, crashes: stats.crashes, ..old_stats }),
                    old_stats.has_room(n as int),
                    stats.close_calls <= old_stats.close_calls + i * n + j,
                    stats.crashes <= old_stats.crashes + i + (if vs@[i as int].crashed { 1int } else { 0int }),
                decreases n - j,
            {
                proof {
                    lemma_pair_bound(i as int, j as int, n as int);
                }
                let ghost cur = vs@;
                assert(same_lane_spec(cur[i as int], cur[j as int]) == same_lane_spec(old_vs[i as int], old_vs[j as int])) by {
                    assert(same_but_crash(cur[i as int], old_vs[i as int]));
                    assert(same_but_crash(cur[j as int], old_vs[j as int]));
                }
                if !same_lane(&vs[i], &vs[j]) {
                    let d = dist[i][j];
                    if d < CLOSE_CALL_DIST as u64 {
                        stats.close_calls = stats.close_calls + 1;
                    }
                    if d < CRASH_DIST as u64 && !vs[i].crashed && !vs[j].crashed {
                        stats.crashes = stats.crashes + 1;
                        let mut a = vs[i];
                        a.crashed = true;
                        vs.set(i, a);
                        let mut b = vs[j];
                        b.crashed = true;
                        vs.set(j, b);
                        assert(vs@ == cur.update(i as int, mark_crashed(cur[i as int])).update(
                            j as int,
                            mark_crashed(cur[j as int]),
                        ));
                    }
                }
                j = j + 1;
            }
            proof {
                lemma_pair_bound(i as int, (n - 1) as int, n as int);
            }
            i = i + 1;
        }
        proof {
            let new_vs = vs@;
            assert forall|a: int, b: int| 0 <= a < new_vs.len() && 0 <= b < new_vs.len() && a != b
                implies #[trigger] new_vs[a].id != #[trigger] new_vs[b].id by {
                assert(same_but_crash(new_vs[a], old_vs[a]));
                assert(same_but_crash(new_vs[b], old_vs[b]));
            }
            assert forall|k: int| 0 <= k < new_vs.len() implies (#[trigger] ts@[k]).0 == new_vs[k].id by {
                assert(same_but_crash(new_vs[k], old_vs[k]));
            }
        }
        *self = World { vehicles: vs, total_passed, vel_timers: ts };
    }

}

} // verus!
