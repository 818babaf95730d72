use smart_road::stats::Statistics;
use smart_road::vehicle::{Arm, Phase, Turn, Vehicle};
use smart_road::world::{same_lane, Motion, World};

const MS: u64 = 1_000_000;

fn still() -> Motion {
    Motion { finished: false, in_box: false }
}

#[test]
fn spawn_respects_same_lane_gap() {
    let mut w = World::new();
    assert!(w.spawn(Vehicle::new(1, Arm::North, Turn::Left), &vec![], 0));
    // Same lane, 479 px from the spawn point: refused.
    assert!(!w.spawn(Vehicle::new(2, Arm::North, Turn::Left), &vec![479], 0));
    assert_eq!(w.vehicles().len(), 1);
    // Same lane, exactly the gap: accepted.
    assert!(w.spawn(Vehicle::new(3, Arm::North, Turn::Left), &vec![480], 0));
    // Another lane, even at distance 0: accepted.
    assert!(w.spawn(Vehicle::new(4, Arm::North, Turn::Right), &vec![0, 0], 0));
    let ids: Vec<u64> = w.vehicles().iter().map(|v| v.id).collect();
    assert_eq!(ids, vec![1, 3, 4]);
    assert!(w.has_id(3));
    assert!(!w.has_id(2));
    assert_eq!(w.total_passed(), 0);
}

#[test]
fn same_lane_means_same_arm_and_turn() {
    let a = Vehicle::new(1, Arm::East, Turn::Forward);
    let b = Vehicle::new(2, Arm::East, Turn::Forward);
    let c = Vehicle::new(3, Arm::East, Turn::Left);
    let d = Vehicle::new(4, Arm::West, Turn::Forward);
    assert!(same_lane(&a, &b));
    assert!(!same_lane(&a, &c));
    assert!(!same_lane(&a, &d));
}

#[test]
fn speed_changes_wait_for_cooldown() {
    let mut w = World::new();
    w.spawn(Vehicle::new(1, Arm::South, Turn::Forward), &vec![], 0);
    let all_blocked = vec![vec![true; 6]];
    // 10 ms after spawning: cooldown still running, speed kept.
    w.decide_speeds(10 * MS, &vec![u64::MAX], &all_blocked);
    assert_eq!(w.vehicles()[0].spd_px, 150);
    // 20 ms after spawning: the speed is decided.
    w.decide_speeds(20 * MS, &vec![u64::MAX], &all_blocked);
    assert_eq!(w.vehicles()[0].spd_px, 0);
    // 19 ms later the road is clear, but the speed holds.
    w.decide_speeds(39 * MS, &vec![u64::MAX], &vec![vec![false; 6]]);
    assert_eq!(w.vehicles()[0].spd_px, 0);
    // At 40 ms it may change again.
    w.decide_speeds(40 * MS, &vec![u64::MAX], &vec![vec![false; 6]]);
    assert_eq!(w.vehicles()[0].spd_px, 200);
}

#[test]
fn vehicle_crosses_box_and_leaves() {
    let mut w = World::new();
    let mut s = Statistics::new();
    w.spawn(Vehicle::new(1, Arm::West, Turn::Forward), &vec![], 0);
    // Moves, still outside the box.
    let kept = w.advance(MS, &vec![still()], &mut s);
    assert_eq!(kept, vec![true]);
    assert_eq!(w.vehicles()[0].phase, Phase::Approaching);
    assert_eq!((w.vehicles()[0].max_spd, w.vehicles()[0].min_spd), (150, 150));
    // Enters the box.
    w.advance(2 * MS, &vec![Motion { finished: false, in_box: true }], &mut s);
    assert_eq!(w.vehicles()[0].phase, Phase::Crossing);
    assert_eq!(w.vehicles()[0].entry_t, Some(2 * MS));
    // Speeds up, then leaves the box: transit time and speeds recorded.
    w.decide_speeds(30 * MS, &vec![u64::MAX], &vec![vec![false; 6]]);
    w.advance(2_002 * MS, &vec![still()], &mut s);
    let v = w.vehicles()[0];
    assert_eq!(v.phase, Phase::Exiting);
    assert_eq!(v.exit_t, Some(2_002 * MS));
    assert_eq!(s.max_time, 2_000 * MS);
    assert_eq!(s.min_time, 2_000 * MS);
    assert_eq!(s.max_spd, 200);
    assert_eq!(s.min_spd, 150);
    assert_eq!(s.vel_sum, 200);
    assert_eq!(s.vel_count, 1);
    // Reaches the end of its path: it leaves the road and counts as passed.
    let kept = w.advance(2_100 * MS, &vec![Motion { finished: true, in_box: false }], &mut s);
    assert_eq!(kept, vec![false]);
    assert_eq!(w.vehicles().len(), 0);
    assert_eq!(s.total_passed, 1);
    assert_eq!(s.max_passed, 1);
    assert_eq!(w.total_passed(), 1);
}

#[test]
fn stopped_vehicle_neither_moves_nor_finishes() {
    let mut w = World::new();
    let mut s = Statistics::new();
    w.spawn(Vehicle::new(1, Arm::East, Turn::Left), &vec![], 0);
    w.decide_speeds(20 * MS, &vec![0], &vec![vec![false; 6]]);
    assert_eq!(w.vehicles()[0].spd_px, 0);
    let kept = w.advance(21 * MS, &vec![Motion { finished: true, in_box: false }], &mut s);
    assert_eq!(kept, vec![true]);
    assert_eq!(w.vehicles()[0].max_spd, 0);
    assert_eq!(s.total_passed, 0);
}

#[test]
fn finished_vehicles_leave_in_order() {
    let mut w = World::new();
    let mut s = Statistics::new();
    s.max_passed = 5;
    for (i, arm) in [Arm::North, Arm::South, Arm::East, Arm::West].iter().enumerate() {
        let near = vec![0; i];
        assert!(w.spawn(Vehicle::new(i as u64 + 1, *arm, Turn::Forward), &near, 0));
    }
    let fin = Motion { finished: true, in_box: false };
    let kept = w.advance(MS, &vec![fin, still(), fin, still()], &mut s);
    assert_eq!(kept, vec![false, true, false, true]);
    let ids: Vec<u64> = w.vehicles().iter().map(|v| v.id).collect();
    assert_eq!(ids, vec![2, 4]);
    assert_eq!(s.total_passed, 2);
    assert_eq!(s.max_passed, 5);
    // The remaining vehicles keep their own timers.
    w.decide_speeds(20 * MS, &vec![u64::MAX, u64::MAX], &vec![vec![true; 6], vec![false; 6]]);
    assert_eq!(w.vehicles()[0].spd_px, 0);
    assert_eq!(w.vehicles()[1].spd_px, 200);
}

fn two_cars(a: (Arm, Turn), b: (Arm, Turn)) -> World {
    let mut w = World::new();
    w.spawn(Vehicle::new(1, a.0, a.1), &vec![], 0);
    w.spawn(Vehicle::new(2, b.0, b.1), &vec![10_000], 0);
    w
}

#[test]
fn close_calls_and_crashes_between_lanes() {
    let mut w = two_cars((Arm::North, Turn::Forward), (Arm::West, Turn::Forward));
    let mut s = Statistics::new();
    w.scan_conflicts(&vec![vec![0, 119], vec![119, 0]], &mut s);
    assert_eq!((s.close_calls, s.crashes), (1, 0));
    w.scan_conflicts(&vec![vec![0, 120], vec![120, 0]], &mut s);
    assert_eq!((s.close_calls, s.crashes), (1, 0));
    w.scan_conflicts(&vec![vec![0, 41], vec![41, 0]], &mut s);
    assert_eq!((s.close_calls, s.crashes), (2, 1));
    assert!(w.vehicles()[0].crashed && w.vehicles()[1].crashed);
    // A pair already crashed is not counted again, the close call is.
    w.scan_conflicts(&vec![vec![0, 10], vec![10, 0]], &mut s);
    assert_eq!((s.close_calls, s.crashes), (3, 1));
}

#[test]
fn same_lane_pairs_never_conflict() {
    let mut w = two_cars((Arm::North, Turn::Forward), (Arm::North, Turn::Forward));
    let mut s = Statistics::new();
    w.scan_conflicts(&vec![vec![0, 0], vec![0, 0]], &mut s);
    assert_eq!((s.close_calls, s.crashes), (0, 0));
    assert!(!w.vehicles()[0].crashed && !w.vehicles()[1].crashed);
}

#[test]
fn each_vehicle_crashes_once() {
    // Three vehicles on three lanes, all touching: the first pair crashes,
    // the third vehicle finds both others already crashed.
    let mut w = World::new();
    w.spawn(Vehicle::new(1, Arm::North, Turn::Forward), &vec![], 0);
    w.spawn(Vehicle::new(2, Arm::West, Turn::Forward), &vec![0], 0);
    w.spawn(Vehicle::new(3, Arm::East, Turn::Forward), &vec![0, 0], 0);
    let mut s = Statistics::new();
    w.scan_conflicts(&vec![vec![0; 3]; 3], &mut s);
    assert_eq!((s.close_calls, s.crashes), (3, 1));
    let crashed: Vec<bool> = w.vehicles().iter().map(|v| v.crashed).collect();
    assert_eq!(crashed, vec![true, true, false]);
}

#[test]
fn spawn_refuses_an_identifier_already_on_the_road() {
    let mut w = World::new();
    assert!(w.spawn(Vehicle::new(7, Arm::North, Turn::Left), &vec![], 0));
    assert!(!w.spawn(Vehicle::new(7, Arm::South, Turn::Right), &vec![10_000], 0));
    assert_eq!(w.vehicles().len(), 1);
    assert_eq!(w.vehicles()[0].arm, Arm::North);
}

#[test]
fn a_road_without_contact_stays_crash_free() {
    let mut w = World::new();
    w.spawn(Vehicle::new(1, Arm::North, Turn::Forward), &vec![], 0);
    w.spawn(Vehicle::new(2, Arm::West, Turn::Forward), &vec![10_000], 0);
    w.spawn(Vehicle::new(3, Arm::West, Turn::Forward), &vec![10_000, 480], 0);
    let mut s = Statistics::new();
    for t in 1..50u64 {
        w.decide_speeds(t * MS, &vec![u64::MAX; 3], &vec![vec![false; 6]; 3]);
        w.advance(t * MS, &vec![still(); 3], &mut s);
        // Different lanes keep 42 px apart; the same-lane pair may touch.
        w.scan_conflicts(&vec![vec![0, 42, 42], vec![42, 0, 0], vec![42, 0, 0]], &mut s);
    }
    assert_eq!(s.crashes, 0);
    assert!(w.vehicles().iter().all(|v| !v.crashed));
}

#[test]
fn phases_never_go_back() {
    let mut w = World::new();
    let mut s = Statistics::new();
    w.spawn(Vehicle::new(1, Arm::East, Turn::Left), &vec![], 0);
    let boxes = [false, true, true, false, true, false];
    let mut last_rank = 0;
    for (t, in_box) in boxes.iter().enumerate() {
        w.advance(t as u64 * MS, &vec![Motion { finished: false, in_box: *in_box }], &mut s);
        let rank = match w.vehicles()[0].phase {
            Phase::Approaching => 0,
            Phase::Crossing => 1,
            Phase::Exiting => 2,
        };
        assert!(last_rank <= rank && rank <= last_rank + 1);
        last_rank = rank;
    }
    assert_eq!(w.vehicles()[0].phase, Phase::Exiting);
    assert_eq!(w.vehicles()[0].entry_t, Some(MS));
    assert_eq!(w.vehicles()[0].exit_t, Some(3 * MS));
}
