use smart_road::stats::Statistics;
use smart_road::vehicle::{Arm, Phase, Turn, Vehicle};

#[test]
fn statistics_start_empty() {
    let s = Statistics::new();
    assert_eq!(s.total_passed, 0);
    assert_eq!(s.max_passed, 0);
    assert_eq!(s.close_calls, 0);
    assert_eq!(s.crashes, 0);
    assert_eq!(s.max_spd, 0);
    assert_eq!(s.min_spd, u32::MAX);
    assert_eq!(s.max_time, 0);
    assert_eq!(s.min_time, u64::MAX);
    assert_eq!(s.vel_sum, 0);
    assert_eq!(s.vel_count, 0);
    assert_eq!(s.min_spd_disp(), 0);
    assert_eq!(s.min_time_disp(), 0);
}

#[test]
fn record_speeds_tracks_extremes_and_sum() {
    let mut s = Statistics::new();
    s.record_spd(200, 30);
    s.record_spd(150, 60);
    s.record_spd(100, 0);
    assert_eq!(s.max_spd, 200);
    assert_eq!(s.min_spd, 0);
    assert_eq!(s.vel_sum, 450);
    assert_eq!(s.vel_count, 3);
    assert_eq!(s.min_spd_disp(), 0);
}

#[test]
fn record_times_tracks_extremes() {
    let mut s = Statistics::new();
    s.record_time(2_500_000_000);
    s.record_time(1_000_000_000);
    s.record_time(4_000_000_000);
    assert_eq!(s.max_time, 4_000_000_000);
    assert_eq!(s.min_time, 1_000_000_000);
    assert_eq!(s.min_time_disp(), 1_000_000_000);
}

#[test]
fn room_check() {
    let s = Statistics::new();
    assert!(s.has_room_for(100));
    let mut full = Statistics::new();
    full.total_passed = usize::MAX - 1;
    assert!(full.has_room_for(1));
    assert!(!full.has_room_for(2));
    let mut crowded = Statistics::new();
    crowded.close_calls = usize::MAX - 15;
    assert!(crowded.has_room_for(3));
    assert!(!crowded.has_room_for(4));
}

#[test]
fn new_vehicle_is_fresh() {
    let v = Vehicle::new(7, Arm::West, Turn::Left);
    assert_eq!(v.id, 7);
    assert_eq!(v.arm, Arm::West);
    assert_eq!(v.turn, Turn::Left);
    assert_eq!(v.phase, Phase::Approaching);
    assert_eq!(v.spd_px, 150);
    assert!(v.color < 8);
    assert_eq!(v.entry_t, None);
    assert_eq!(v.exit_t, None);
    assert_eq!(v.max_spd, 0);
    assert_eq!(v.min_spd, u32::MAX);
    assert_eq!(v.priority, 7);
    assert!(!v.crashed);
    assert_eq!(v.hitbox_level, 0);
    assert_eq!(v.min_spd_d(), 0);
    assert_eq!(v.elapsed(), None);
}

#[test]
fn random_choices_stay_in_range() {
    let mut colours = [false; 8];
    let mut arms = Vec::new();
    let mut turns = Vec::new();
    for id in 0..400 {
        let v = Vehicle::new_random(id);
        assert!(v.color < 8);
        colours[v.color] = true;
        if !arms.contains(&v.arm) {
            arms.push(v.arm);
        }
        if !turns.contains(&v.turn) {
            turns.push(v.turn);
        }
        let w = Vehicle::new_from_arm(id, Arm::South);
        assert_eq!(w.arm, Arm::South);
        assert_eq!(w.priority, id);
    }
    // With 400 draws every value shows up (a fixed draw would fail here).
    assert!(colours.iter().all(|c| *c));
    assert_eq!(arms.len(), 4);
    assert_eq!(turns.len(), 3);
}

#[test]
fn speed_record_follows_moves() {
    let mut v = Vehicle::new(1, Arm::North, Turn::Forward);
    v.record_speed();
    assert_eq!((v.max_spd, v.min_spd), (150, 150));
    v.spd_px = 30;
    v.record_speed();
    v.spd_px = 200;
    v.record_speed();
    assert_eq!((v.max_spd, v.min_spd), (200, 30));
    assert_eq!(v.min_spd_d(), 30);
}

#[test]
fn elapsed_between_entry_and_exit() {
    let mut v = Vehicle::new(1, Arm::North, Turn::Forward);
    v.entry_t = Some(1_000);
    assert_eq!(v.elapsed(), None);
    v.exit_t = Some(3_500);
    assert_eq!(v.elapsed(), Some(2_500));
    v.exit_t = Some(500);
    assert_eq!(v.elapsed(), Some(0));
}

#[test]
fn identifiers_start_at_one_and_count_up() {
    let mut ids = smart_road::vehicle::IdSource::new();
    assert_eq!(ids.next_id(), 1);
    assert_eq!(ids.next_id(), 2);
    assert_eq!(ids.next_id(), 3);
}
