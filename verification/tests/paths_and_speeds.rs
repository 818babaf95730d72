use smart_road::path::get_path;
use smart_road::speed::{decide_speed, hitbox_size, hitbox_speed};
use smart_road::vehicle::{Arm, Phase, Turn};

const ARMS: [Arm; 4] = [Arm::North, Arm::South, Arm::East, Arm::West];
const TURNS: [Turn; 3] = [Turn::Right, Turn::Forward, Turn::Left];

#[test]
fn path_north_right_is_exact() {
    assert_eq!(get_path(Arm::North, Turn::Right), vec![(580, 290), (580, 580), (810, 580)]);
}

#[test]
fn path_table_is_exact() {
    assert_eq!(get_path(Arm::North, Turn::Forward), vec![(640, 290), (640, 810)]);
    assert_eq!(get_path(Arm::North, Turn::Left), vec![(700, 290), (700, 400), (290, 400)]);
    assert_eq!(get_path(Arm::South, Turn::Right), vec![(520, 810), (520, 520), (290, 520)]);
    assert_eq!(get_path(Arm::South, Turn::Forward), vec![(460, 810), (460, 290)]);
    assert_eq!(get_path(Arm::South, Turn::Left), vec![(400, 810), (400, 700), (810, 700)]);
    assert_eq!(get_path(Arm::West, Turn::Right), vec![(290, 580), (520, 580), (520, 290)]);
    assert_eq!(get_path(Arm::West, Turn::Forward), vec![(290, 640), (810, 640)]);
    assert_eq!(get_path(Arm::West, Turn::Left), vec![(290, 700), (700, 700), (700, 810)]);
    assert_eq!(get_path(Arm::East, Turn::Right), vec![(810, 520), (580, 520), (580, 810)]);
    assert_eq!(get_path(Arm::East, Turn::Forward), vec![(810, 460), (290, 460)]);
    assert_eq!(get_path(Arm::East, Turn::Left), vec![(810, 400), (400, 400), (400, 290)]);
}

#[test]
fn paths_are_axis_aligned_and_start_off_screen() {
    for arm in ARMS {
        for turn in TURNS {
            let p = get_path(arm, turn);
            assert_eq!(p.len(), if turn == Turn::Forward { 2 } else { 3 });
            for w in p.windows(2) {
                assert!(w[0].0 == w[1].0 || w[0].1 == w[1].1);
            }
            let (x, y) = p[0];
            assert!(x == 290 || x == 810 || y == 290 || y == 810);
            let (x, y) = *p.last().unwrap();
            assert!(x == 290 || x == 810 || y == 290 || y == 810);
            for q in &p[1..p.len() - 1] {
                assert!(370 <= q.0 && q.0 <= 730 && 370 <= q.1 && q.1 <= 730);
            }
        }
    }
}

#[test]
fn spawn_points_are_distinct() {
    let mut starts = Vec::new();
    for arm in ARMS {
        for turn in TURNS {
            starts.push(get_path(arm, turn)[0]);
        }
    }
    for i in 0..starts.len() {
        for j in 0..starts.len() {
            if i != j {
                assert_ne!(starts[i], starts[j]);
            }
        }
    }
}

#[test]
fn inbound_lanes_right_half() {
    for turn in TURNS {
        assert!(get_path(Arm::North, turn)[0].0 > 550);
        assert!(get_path(Arm::South, turn)[0].0 < 550);
        assert!(get_path(Arm::West, turn)[0].1 > 550);
        assert!(get_path(Arm::East, turn)[0].1 < 550);
    }
}

#[test]
fn hitbox_tables() {
    let sizes: Vec<u32> = (0..6).map(hitbox_size).collect();
    let speeds: Vec<u32> = (0..6).map(hitbox_speed).collect();
    assert_eq!(sizes, vec![400, 300, 225, 100, 51, 50]);
    assert_eq!(speeds, vec![200, 200, 100, 60, 30, 0]);
}

fn ladder(first_clear: usize) -> Vec<bool> {
    (0..6).map(|l| l < first_clear).collect()
}

#[test]
fn exiting_drives_fast() {
    assert_eq!(decide_speed(Phase::Exiting, 0, &vec![true; 6]), 200);
}

#[test]
fn same_lane_leader_stops_or_slows() {
    assert_eq!(decide_speed(Phase::Approaching, 0, &ladder(0)), 0);
    assert_eq!(decide_speed(Phase::Approaching, 59, &ladder(0)), 0);
    assert_eq!(decide_speed(Phase::Approaching, 60, &ladder(0)), 100);
    assert_eq!(decide_speed(Phase::Crossing, 239, &ladder(0)), 100);
    assert_eq!(decide_speed(Phase::Crossing, 240, &ladder(0)), 200);
}

#[test]
fn hitbox_ladder_speeds() {
    let expected = [200, 200, 100, 60, 30, 0, 0];
    for first_clear in 0..=6 {
        assert_eq!(
            decide_speed(Phase::Approaching, u64::MAX, &ladder(first_clear)),
            expected[first_clear]
        );
    }
}

#[test]
fn more_overlap_never_faster() {
    for a in 0u32..64 {
        for b in 0u32..64 {
            if a & b == a {
                let fewer: Vec<bool> = (0..6).map(|i| a >> i & 1 == 1).collect();
                let more: Vec<bool> = (0..6).map(|i| b >> i & 1 == 1).collect();
                assert!(
                    decide_speed(Phase::Crossing, 1000, &more)
                        <= decide_speed(Phase::Crossing, 1000, &fewer)
                );
            }
        }
    }
}

#[test]
fn first_clear_level_decides() {
    // Only the first clear level counts, not later ones.
    let ov = vec![true, false, true, true, true, true];
    assert_eq!(decide_speed(Phase::Approaching, u64::MAX, &ov), 200);
    let ov = vec![true, true, true, true, false, false];
    assert_eq!(decide_speed(Phase::Approaching, u64::MAX, &ov), 30);
}

#[test]
fn paths_leave_on_outbound_lanes() {
    for arm in ARMS {
        for turn in TURNS {
            let p = get_path(arm, turn);
            let (a, b) = (p[p.len() - 2], p[p.len() - 1]);
            if b.1 == 290 {
                assert!([400, 460, 520].contains(&b.0) && a.0 == b.0);
            } else if b.1 == 810 {
                assert!([580, 640, 700].contains(&b.0) && a.0 == b.0);
            } else if b.0 == 290 {
                assert!([400, 460, 520].contains(&b.1) && a.1 == b.1);
            } else {
                assert_eq!(b.0, 810);
                assert!([580, 640, 700].contains(&b.1) && a.1 == b.1);
            }
        }
    }
}

#[test]
fn no_exit_runs_against_inbound_traffic() {
    let mut inbound = Vec::new();
    for arm in ARMS {
        for turn in TURNS {
            let p = get_path(arm, turn);
            inbound.push((p[0], p[1]));
        }
    }
    for arm in ARMS {
        for turn in TURNS {
            let p = get_path(arm, turn);
            let exit = p[p.len() - 1];
            for (start, _) in &inbound {
                // The exit point never lies on the lane line of a spawn point on the same edge.
                if start.0 == exit.0 && (exit.0 == 290 || exit.0 == 810) {
                    assert_ne!(start.1, exit.1);
                }
                if start.1 == exit.1 && (exit.1 == 290 || exit.1 == 810) {
                    assert_ne!(start.0, exit.0);
                }
            }
        }
    }
}
