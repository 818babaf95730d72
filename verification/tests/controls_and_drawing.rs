use smart_road::controls::{Command, Controls, Key, SelArm};
use smart_road::renderer::{
    beam, body_rgb, brake_lights_on, close_calls_shown, dashes, font_candidate_str, font_path,
    half_shade, hud_box_height, hud_layout, hud_mode, lane_dividers, HudLine, pick_font, Beam, HudMode, FONT_CANDIDATES,
};
use smart_road::vehicle::{Arm, Turn, Vehicle};

const MS: u64 = 1_000_000;

#[test]
fn arrows_spawn_in_direction_of_travel() {
    let mut c = Controls::new(0);
    assert_eq!(c.on_key(Key::Up, 400 * MS), Command::SpawnFromArm(Arm::South));
    assert_eq!(c.on_key(Key::Down, 800 * MS), Command::SpawnFromArm(Arm::North));
    assert_eq!(c.on_key(Key::Right, 1200 * MS), Command::SpawnFromArm(Arm::West));
    assert_eq!(c.on_key(Key::Left, 1600 * MS), Command::SpawnFromArm(Arm::East));
    assert_eq!(c.last_key, 1600 * MS);
}

#[test]
fn keyboard_spawns_are_rate_limited() {
    let mut c = Controls::new(0);
    assert_eq!(c.on_key(Key::Up, 399 * MS), Command::Continue);
    assert_eq!(c.on_key(Key::Up, 400 * MS), Command::SpawnFromArm(Arm::South));
    assert_eq!(c.on_key(Key::Up, 799 * MS), Command::Continue);
    assert_eq!(c.last_key, 400 * MS);
}

#[test]
fn manual_mode_two_steps() {
    let mut c = Controls::new(0);
    assert_eq!(c.on_key(Key::M, 10), Command::Continue);
    assert!(c.manual && !c.rng_mode);
    // A number before an arm is chosen does nothing.
    assert_eq!(c.on_key(Key::Num1, 500 * MS), Command::Continue);
    assert_eq!(c.on_key(Key::Up, 500 * MS), Command::Continue);
    assert_eq!(c.sel_arm, SelArm::South);
    assert_eq!(c.on_key(Key::Num3, 500 * MS), Command::Spawn(Arm::South, Turn::Left));
    assert_eq!(c.on_key(Key::Num2, 600 * MS), Command::Continue);
    assert_eq!(c.on_key(Key::Left, 900 * MS), Command::Continue);
    assert_eq!(c.on_key(Key::Num2, 900 * MS), Command::Spawn(Arm::East, Turn::Forward));
    assert_eq!(c.on_key(Key::Down, 2000 * MS), Command::Continue);
    assert_eq!(c.on_key(Key::Num1, 2000 * MS), Command::Spawn(Arm::North, Turn::Right));
}

#[test]
fn auto_mode_spawns_every_period() {
    let mut c = Controls::new(0);
    assert!(!c.tick(5_000 * MS));
    assert_eq!(c.on_key(Key::R, 5_000 * MS), Command::Continue);
    assert!(c.rng_mode && !c.manual);
    assert_eq!(c.sel_arm, SelArm::Unset);
    assert!(c.tick(5_000 * MS));
    assert!(!c.tick(6_199 * MS));
    assert!(c.tick(6_200 * MS));
    assert_eq!(c.last_rand, 6_200 * MS);
    c.on_key(Key::M, 7_000 * MS);
    assert!(!c.tick(9_000 * MS));
}

#[test]
fn escape_shows_statistics() {
    let mut c = Controls::new(0);
    assert_eq!(c.on_key(Key::Escape, 1), Command::ShowStatsAndQuit);
    assert_eq!(c.on_key(Key::Other, 1), Command::Continue);
}

#[test]
fn font_candidates_in_order() {
    assert_eq!(font_candidate_str(0), "C:\\Windows\\Fonts\\arial.ttf");
    assert_eq!(font_candidate_str(7), "/usr/share/fonts/truetype/ubuntu/Ubuntu-R.ttf");
    assert_eq!(pick_font(&vec![false, false, true, true]), Some(2));
    assert_eq!(pick_font(&vec![false; 8]), None);
    assert_eq!(pick_font(&vec![]), None);
}

#[test]
fn font_path_is_a_candidate_that_exists() {
    match font_path() {
        Some(p) => {
            assert!((0..FONT_CANDIDATES).any(|k| font_candidate_str(k) == p));
            assert!(std::path::Path::new(p).exists());
            // It is the first one that exists.
            for k in 0..FONT_CANDIDATES {
                let c = font_candidate_str(k);
                if c == p {
                    break;
                }
                assert!(!std::path::Path::new(c).exists());
            }
        }
        None => {
            for k in 0..FONT_CANDIDATES {
                assert!(!std::path::Path::new(font_candidate_str(k)).exists());
            }
        }
    }
}

#[test]
fn palette_and_shading() {
    let mut v = Vehicle::new(1, Arm::North, Turn::Left);
    v.color = 1;
    assert_eq!(body_rgb(&v), (55, 145, 220));
    v.color = 9;
    assert_eq!(body_rgb(&v), (55, 145, 220));
    v.crashed = true;
    assert_eq!(body_rgb(&v), (180, 20, 20));
    assert_eq!(half_shade((210, 55, 255)), (105, 27, 127));
}

#[test]
fn speed_signals() {
    assert_eq!(beam(200), Beam::Cruise);
    assert_eq!(beam(150), Beam::Cruise);
    assert_eq!(beam(149), Beam::Caution);
    assert_eq!(beam(100), Beam::Caution);
    assert_eq!(beam(60), Beam::Danger);
    assert_eq!(beam(0), Beam::Danger);
    assert!(brake_lights_on(100));
    assert!(!brake_lights_on(150));
}

#[test]
fn dashed_lines() {
    assert_eq!(dashes(0, 100, 22, 18), vec![(0, 22), (40, 62), (80, 100)]);
    assert_eq!(dashes(730, 1100, 22, 18).len(), 10);
    assert_eq!(dashes(5, 5, 22, 18), vec![]);
    assert_eq!(dashes(0, 370, 22, 18).last(), Some(&(360, 370)));
}

#[test]
fn lane_markings_and_display() {
    assert_eq!(lane_dividers(), vec![60, 120, 240, 300]);
    assert_eq!(hud_mode(true, true), HudMode::Manual);
    assert_eq!(hud_mode(false, true), HudMode::Auto);
    assert_eq!(hud_mode(false, false), HudMode::Idle);
    assert_eq!(close_calls_shown(60), (1, false));
    assert_eq!(close_calls_shown(121), (2, true));
}

#[test]
fn hud_layout_per_mode() {
    let manual = hud_layout(true);
    let auto = hud_layout(false);
    assert_eq!(manual.len(), 29);
    assert_eq!(auto.len(), 27);
    assert_eq!(manual[14], HudLine::Mode);
    assert_eq!(manual[15], HudLine::SelectedArm);
    assert!(!auto.contains(&HudLine::SelectedArm));
    assert_eq!(manual[22], HudLine::ManualHelp(0));
    assert_eq!(auto[21], HudLine::AutoHelp(0));
    assert_eq!(*auto.last().unwrap(), HudLine::AutoHelp(5));
    assert_eq!(hud_box_height(manual.len()), 629);
    assert_eq!(hud_box_height(auto.len()), 587);
}
