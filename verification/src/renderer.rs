//! The drawing rules that do not depend on the graphics backend: which font
//! file to load, the palette, how lane markings are dashed, which colour
//! signals a vehicle's speed, and which lines the heads-up display shows.

use vstd::prelude::*;
use crate::config::{SPD_NORMAL, SPD_SLOW};
use crate::vehicle::Vehicle;

verus! {

/// Number of font files tried, in order.
pub const FONT_CANDIDATES: usize = 8;

/// The `k`-th font file tried.
pub open spec fn font_candidate(k: int) -> Seq<char> {
    if k == 0 { "C:\\Windows\\Fonts\\arial.ttf"@ }
    else if k == 1 { "/usr/share/fonts/truetype/dejavu/DejaVuSans.ttf"@ }
    else if k == 2 { "/usr/share/fonts/TTF/DejaVuSans.ttf"@ }
    else if k == 3 { "/usr/share/fonts/dejavu/DejaVuSans.ttf"@ }
    else if k == 4 { "/System/Library/Fonts/Helvetica.ttc"@ }
    else if k == 5 { "/Library/Fonts/Arial.ttf"@ }
    else if k == 6 { "/usr/share/fonts/truetype/liberation/LiberationSans-Regular.ttf"@ }
    else { "/usr/share/fonts/truetype/ubuntu/Ubuntu-R.ttf"@ }
}

/// The `k`-th font file tried.
pub fn font_candidate_str(k: usize) -> (p: &'static str)
    requires
        k < FONT_CANDIDATES,
    ensures
        p@ == font_candidate(k as int),
{
    match k {
        0 => "C:\\Windows\\Fonts\\arial.ttf",
        1 => "/usr/share/fonts/truetype/dejavu/DejaVuSans.ttf",
        2 => "/usr/share/fonts/TTF/DejaVuSans.ttf",
        3 => "/usr/share/fonts/dejavu/DejaVuSans.ttf",
        4 => "/System/Library/Fonts/Helvetica.ttc",
        5 => "/Library/Fonts/Arial.ttf",
        6 => "/usr/share/fonts/truetype/liberation/LiberationSans-Regular.ttf",
        _ => "/usr/share/fonts/truetype/ubuntu/Ubuntu-R.ttf",
    }
}

/// The first index at or after `k` at which `s` holds `true`.
pub open spec fn first_true_from(s: Seq<bool>, k: int) -> Option<int>
    decreases s.len() - k,
{
    if k < 0 || k >= s.len() {
        None
    } else if s[k] {
        Some(k)
    } else {
        first_true_from(s, k + 1)
    }
}

/// Calls `std::path::Path::exists` on `p`. Nothing is claimed of the
/// result: it depends on the file system.
#[verifier::external_body]
fn path_exists(p: &str) -> bool {
    std::path::Path::new(p).exists()
}

/// The first font file that exists, given whether each candidate exists.
pub fn pick_font(exists: &Vec<bool>) -> (k: Option<usize>)
    ensures
        match k {
            Some(i) => first_true_from(exists@, 0) == Some(i as int),
            None => first_true_from(exists@, 0) is None,
        },
{
    let mut i: usize = 0;
    while i < exists.len()
        invariant
            i <= exists.len(),
            first_true_from(exists@, 0) == first_true_from(exists@, i as int),
        decreases exists.len() - i,
    {
        if exists[i] {
            return Some(i);
        }
        i = i + 1;
    }
    None
}

/// The path of the first candidate font file found on disk, or `None` when
/// there is none. The candidates are probed in order, and probing stops at
/// the first one found.
pub fn font_path() -> (p: Option<&'static str>)
    ensures
        p matches Some(s) ==> exists|k: int| 0 <= k < FONT_CANDIDATES && s@ == font_candidate(k),
{
    let mut found: Vec<bool> = Vec::new();
    let mut k: usize = 0;
    let mut hit = false;
    while k < FONT_CANDIDATES && !hit
        invariant
            k <= FONT_CANDIDATES,
            found@.len() == k,
        decreases FONT_CANDIDATES - k,
    {
        let e = path_exists(font_candidate_str(k));
        found.push(e);
        hit = e;
        k = k + 1;
    }
    match pick_font(&found) {
        Some(i) => {
            proof {
                lemma_first_true_in_range(found@, 0);
            }
            let s = font_candidate_str(i);
            Some(s)
        },
        None => None,
    }
}

proof fn lemma_first_true_in_range(s: Seq<bool>, k: int)
    ensures
        first_true_from(s, k) matches Some(i) ==> k <= i < s.len() && s[i],
    decreases s.len() - k,
{
    if 0 <= k < s.len() && !s[k] {
        lemma_first_true_in_range(s, k + 1);
    }
}

/// The eight-colour vehicle palette.
pub open spec fn palette(k: int) -> (u8, u8, u8) {
    if k == 0 { (210, 55, 55) }
    else if k == 1 { (55, 145, 220) }
    else if k == 2 { (55, 200, 90) }
    else if k == 3 { (240, 175, 30) }
    else if k == 4 { (175, 70, 215) }
    else if k == 5 { (235, 115, 40) }
    else if k == 6 { (40, 215, 215) }
    else { (215, 215, 215) }
}

/// Body colour of a vehicle: dark red once crashed, else its palette colour.
pub open spec fn body_rgb_spec(v: Vehicle) -> (u8, u8, u8) {
    if v.crashed { (180, 20, 20) } else { palette((v.color % 8) as int) }
}

/// Body colour of `v`.
pub fn body_rgb(v: &Vehicle) -> (c: (u8, u8, u8))
    ensures
        c == body_rgb_spec(*v),
{
    if v.crashed {
        return (180, 20, 20);
    }
    match v.color % 8 {
        0 => (210, 55, 55),
        1 => (55, 145, 220),
        2 => (55, 200, 90),
        3 => (240, 175, 30),
        4 => (175, 70, 215),
        5 => (235, 115, 40),
        6 => (40, 215, 215),
        _ => (215, 215, 215),
    }
}

/// The windshield shade of a body colour: every channel halved.
pub fn half_shade(c: (u8, u8, u8)) -> (s: (u8, u8, u8))
    ensures
        s.0 == c.0 * 5 / 10,
        s.1 == c.1 * 5 / 10,
        s.2 == c.2 * 5 / 10,
{
    ((c.0 as u16 * 5 / 10) as u8, (c.1 as u16 * 5 / 10) as u8, (c.2 as u16 * 5 / 10) as u8)
}

/// The colour class of a vehicle's sensor beam.
#[derive(Debug, Clone, Copy, PartialEq, Eq, Structural)]
pub enum Beam {
    /// Normal speed or faster.
    Cruise,
    /// Slow, below normal speed.
    Caution,
    /// Below slow speed, or stopped.
    Danger,
}

pub open spec fn beam_spec(spd: u32) -> Beam {
    if spd >= SPD_NORMAL { Beam::Cruise } else if spd >= SPD_SLOW { Beam::Caution } else { Beam::Danger }
}

/// The colour class of the sensor beam of a vehicle at speed `spd`.
pub fn beam(spd: u32) -> (b: Beam)
    ensures
        b == beam_spec(spd),
{
    if spd >= SPD_NORMAL {
        Beam::Cruise
    } else if spd >= SPD_SLOW {
        Beam::Caution
    } else {
        Beam::Danger
    }
}

/// Brake lights are bright below normal speed.
pub fn brake_lights_on(spd: u32) -> (on: bool)
    ensures
        on == (spd < SPD_NORMAL),
{
    spd < SPD_NORMAL
}

/// The dashes `(start, end)` of a dashed line from `from` to `to`: dashes
/// of length `dash` separated by gaps of length `gap`, the last one cut at
/// `to`.
pub open spec fn dash_spec(from: int, to: int, dash: int, gap: int) -> Seq<(int, int)>
    decreases (if from < to { to - from } else { 0 }),
    when dash + gap > 0
{
    if from >= to {
        Seq::empty()
    } else {
        seq![(from, if from + dash < to { from + dash } else { to })] + dash_spec(from + dash + gap, to, dash, gap)
    }
}

/// The dashes of a dashed line from `from` to `to`.
pub fn dashes(from: i32, to: i32, dash: i32, gap: i32) -> (ds: Vec<(i32, i32)>)
    requires
        dash >= 0,
        gap >= 0,
        dash + gap > 0,
        to + dash + gap <= i32::MAX,
    ensures
        ds@.len() == dash_spec(from as int, to as int, dash as int, gap as int).len(),
        forall|k: int| 0 <= k < ds@.len() ==> (#[trigger] ds@[k]).0 == dash_spec(from as int, to as int, dash as int, gap as int)[k].0
            && ds@[k].1 == dash_spec(from as int, to as int, dash as int, gap as int)[k].1,
{
    let ghost all = dash_spec(from as int, to as int, dash as int, gap as int);
    let mut ds: Vec<(i32, i32)> = Vec::new();
    let mut y = from;
    while y < to
        invariant
            dash >= 0,
            gap >= 0,
            dash + gap > 0,
            to + dash + gap <= i32::MAX,
            y >= from,
            all == dash_spec(from as int, to as int, dash as int, gap as int),
            ds@.len() + dash_spec(y as int, to as int, dash as int, gap as int).len() == all.len(),
            forall|k: int| 0 <= k < ds@.len() ==> (#[trigger] ds@[k]).0 == all[k].0 && ds@[k].1 == all[k].1,
            forall|k: int| 0 <= k < dash_spec(y as int, to as int, dash as int, gap as int).len()
                ==> #[trigger] dash_spec(y as int, to as int, dash as int, gap as int)[k] == all[ds@.len() + k],
        decreases (if y < to { to - y } else { 0 }),
    {
        let e = if y + dash < to { y + dash } else { to };
        let ghost rest = dash_spec(y as int, to as int, dash as int, gap as int);
        let ghost next = dash_spec((y + dash + gap) as int, to as int, dash as int, gap as int);
        assert(rest =~= seq![(y as int, e as int)] + next);
        assert(rest[0] == all[ds@.len() as int]);
        ds.push((y, e));
        proof {
            assert forall|k: int| 0 <= k < next.len() implies #[trigger] next[k] == all[ds@.len() + k] by {
                assert(next[k] == rest[k + 1]);
            }
        }
        y = y + dash + gap;
    }
    ds
}

/// With a positive dash length, every dash lies within `[from, to]`, is at
/// most `dash` long, starts before it ends, and the next dash starts `dash + gap` after it.
pub proof fn lemma_dashes_in_span(from: int, to: int, dash: int, gap: int)
    requires
        dash > 0,
        gap >= 0,
    ensures
        ({
            let ds = dash_spec(from, to, dash, gap);
            &&& forall|k: int| 0 <= k < ds.len() ==>
                from <= (#[trigger] ds[k]).0 < ds[k].1 <= to && ds[k].1 - ds[k].0 <= dash
            &&& forall|k: int| 0 <= k < ds.len() - 1 ==> #[trigger] ds[k + 1].0 == ds[k].0 + dash + gap
            &&& forall|k: int| 0 <= k < ds.len() ==> (#[trigger] ds[k]).0 == from + k * (dash + gap)
        }),
    decreases (if from < to { to - from } else { 0 }),
{
    if from < to {
        let ds = dash_spec(from, to, dash, gap);
        let next = dash_spec(from + dash + gap, to, dash, gap);
        lemma_dashes_in_span(from + dash + gap, to, dash, gap);
        assert(ds =~= seq![(from, if from + dash < to { from + dash } else { to })] + next);
        assert forall|k: int| 0 <= k < ds.len() implies (#[trigger] ds[k]).0 == from + k * (dash + gap) by {
            if k > 0 {
                assert(ds[k] == next[k - 1]);
                assert(from + dash + gap + (k - 1) * (dash + gap) == from + k * (dash + gap)) by (nonlinear_arith);
            }
        }
        assert forall|k: int| 0 <= k < ds.len() - 1 implies #[trigger] ds[k + 1].0 == ds[k].0 + dash + gap by {
            assert(ds[k + 1].0 == from + (k + 1) * (dash + gap));
            assert(ds[k].0 == from + k * (dash + gap));
            assert(from + (k + 1) * (dash + gap) == from + k * (dash + gap) + dash + gap) by (nonlinear_arith);
        }
        assert forall|k: int| 0 <= k < ds.len() implies
            from <= (#[trigger] ds[k]).0 < ds[k].1 <= to && ds[k].1 - ds[k].0 <= dash by {
            if k > 0 {
                assert(ds[k] == next[k - 1]);
            }
        }
    }
}

/// Offsets across the road of the dashed lane dividers: every lane border
/// but the centre line, which is drawn solid.
pub fn lane_dividers() -> (offs: Vec<i32>)
    ensures
        offs@ == seq![60i32, 120i32, 240i32, 300i32],
{
    let lanes: i32 = 6;
    let tile: i32 = 60;
    let mid = lanes / 2;
    let mut offs: Vec<i32> = Vec::new();
    let mut i: i32 = 1;
    while i < lanes
        invariant
            1 <= i <= lanes,
            lanes == 6,
            tile == 60,
            mid == 3,
            offs@ == seq![60i32, 120i32, 240i32, 300i32].take(if i <= mid { i - 1 } else { i - 2 }),
        decreases lanes - i,
    {
        if i != mid {
            offs.push(i * tile);
        }
        proof {
            let s = seq![60i32, 120i32, 240i32, 300i32];
            if i < mid {
                assert(s.take(i as int) =~= s.take(i - 1).push((i * tile) as i32));
            } else if i > mid {
                assert(s.take(i - 1) =~= s.take(i - 2).push((i * tile) as i32));
            }
        }
        i = i + 1;
    }
    offs
}

/// What the mode line of the display shows.
#[derive(Debug, Clone, Copy, PartialEq, Eq, Structural)]
pub enum HudMode {
    Manual,
    Auto,
    Idle,
}

/// Manual mode shows first, then automatic mode, else idle.
pub fn hud_mode(manual: bool, rng: bool) -> (m: HudMode)
    ensures
        m == (if manual { HudMode::Manual } else if rng { HudMode::Auto } else { HudMode::Idle }),
{
    if manual {
        HudMode::Manual
    } else if rng {
        HudMode::Auto
    } else {
        HudMode::Idle
    }
}

/// Close calls are counted per frame; the display shows them in seconds of
/// closeness at 60 frames per second, with a warning past one second.
pub fn close_calls_shown(close_calls: usize) -> (r: (usize, bool))
    ensures
        r == (close_calls / 60, close_calls > 60),
{
    (close_calls / 60, close_calls > 60)
}

/// Height of one line of the heads-up display, in pixels.
pub const HUD_LINE_H: i32 = 21;

/// Padding inside the heads-up display box, in pixels.
pub const HUD_PAD: i32 = 10;

/// The kinds of line of the heads-up display, top to bottom.
#[derive(Debug, Clone, Copy, PartialEq, Eq, Structural)]
pub enum HudLine {
    Title,
    Divider,
    Passed,
    OnScreen,
    Crashes,
    CloseCalls,
    MaxSpeed,
    MinSpeed,
    AvgSpeed,
    MaxTransit,
    MinTransit,
    Mode,
    /// The arm chosen for the next manual spawn.
    SelectedArm,
    /// The `k`-th line of the key help (header, then one line per key).
    Controls(u8),
    /// The `k`-th line of the manual-spawn instructions.
    ManualHelp(u8),
    /// The `k`-th line of the automatic-spawn instructions.
    AutoHelp(u8),
}

/// The lines of the heads-up display: the statistics and the mode, the
/// chosen arm in manual mode only, the key help, then the instructions for
/// the current spawning mode (seven lines manual, six automatic).
pub open spec fn hud_layout_spec(manual: bool) -> Seq<HudLine> {
    seq![
        HudLine::Title, HudLine::Divider,
        HudLine::Passed, HudLine::OnScreen, HudLine::Crashes, HudLine::CloseCalls,
        HudLine::Divider,
        HudLine::MaxSpeed, HudLine::MinSpeed, HudLine::AvgSpeed,
        HudLine::Divider,
        HudLine::MaxTransit, HudLine::MinTransit,
        HudLine::Divider,
        HudLine::Mode,
    ]
    + (if manual { seq![HudLine::SelectedArm] } else { Seq::empty() })
    + seq![
        HudLine::Divider,
        HudLine::Controls(0), HudLine::Controls(1), HudLine::Controls(2), HudLine::Controls(3),
        HudLine::Divider,
    ]
    + (if manual {
        seq![
            HudLine::ManualHelp(0), HudLine::ManualHelp(1), HudLine::ManualHelp(2), HudLine::ManualHelp(3),
            HudLine::ManualHelp(4), HudLine::ManualHelp(5), HudLine::ManualHelp(6),
        ]
    } else {
        seq![
            HudLine::AutoHelp(0), HudLine::AutoHelp(1), HudLine::AutoHelp(2),
            HudLine::AutoHelp(3), HudLine::AutoHelp(4), HudLine::AutoHelp(5),
        ]
    })
}

/// The lines of the heads-up display in manual or automatic mode.
pub fn hud_layout(manual: bool) -> (lines: Vec<HudLine>)
    ensures
        lines@ == hud_layout_spec(manual),
{
    let mut lines: Vec<HudLine> = Vec::new();
    lines.push(HudLine::Title);
    lines.push(HudLine::Divider);
    lines.push(HudLine::Passed);
    lines.push(HudLine::OnScreen);
    lines.push(HudLine::Crashes);
    lines.push(HudLine::CloseCalls);
    lines.push(HudLine::Divider);
    lines.push(HudLine::MaxSpeed);
    lines.push(HudLine::MinSpeed);
    lines.push(HudLine::AvgSpeed);
    lines.push(HudLine::Divider);
    lines.push(HudLine::MaxTransit);
    lines.push(HudLine::MinTransit);
    lines.push(HudLine::Divider);
    lines.push(HudLine::Mode);
    if manual {
        lines.push(HudLine::SelectedArm);
    }
    lines.push(HudLine::Divider);
    let mut k: u8 = 0;
    while k < 4
        invariant
            k <= 4,
            lines@ == hud_layout_spec(manual).take(lines@.len() as int),
            lines@.len() == (if manual { 17int } else { 16int }) + k,
        decreases 4 - k,
    {
        lines.push(HudLine::Controls(k));
        k = k + 1;
    }
    lines.push(HudLine::Divider);
    let n: u8 = if manual { 7 } else { 6 };
    let mut k: u8 = 0;
    while k < n
        invariant
            n == (if manual { 7u8 } else { 6u8 }),
            k <= n,
            lines@ == hud_layout_spec(manual).take(lines@.len() as int),
            lines@.len() == (if manual { 22int } else { 21int }) + k,
        decreases n - k,
    {
        if manual {
            lines.push(HudLine::ManualHelp(k));
        } else {
            lines.push(HudLine::AutoHelp(k));
        }
        k = k + 1;
    }
    proof {
        assert(lines@ =~= hud_layout_spec(manual));
    }
    lines
}

/// The height in pixels of a display box holding `n` lines.
pub fn hud_box_height(n: usize) -> (h: i32)
    requires
        n * HUD_LINE_H + 2 * HUD_PAD <= i32::MAX,
    ensures
        h == n * HUD_LINE_H + 2 * HUD_PAD,
{
    n as i32 * HUD_LINE_H + HUD_PAD * 2
}

/// The display has 29 lines in manual mode and 27 otherwise; only manual
/// mode shows the chosen arm.
pub proof fn lemma_hud_line_counts(manual: bool)
    ensures
        hud_layout_spec(manual).len() == (if manual { 29int } else { 27int }),
        hud_layout_spec(manual).contains(HudLine::SelectedArm) == manual,
{
    let l = hud_layout_spec(manual);
    if manual {
        assert(l[15] == HudLine::SelectedArm);
    } else {
        assert forall|i: int| 0 <= i < l.len() implies l[i] != HudLine::SelectedArm by {}
    }
}

} // verus!
